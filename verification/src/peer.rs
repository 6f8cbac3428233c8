//! Peer identities and `p2p://<peer>/<repo>` addresses.

use std::str::FromStr;
use vstd::prelude::*;
use crate::text::split_char;

verus! {

/// What `libp2p_identity::PeerId::from_str` makes of a text: the bytes of the
/// peer id's multihash, or the text of the parse error.
pub uninterp spec fn peer_id_parse(text: Seq<char>) -> Result<Seq<u8>, Seq<char>>;

/// A parse result with its parts taken by their views.
pub open spec fn bytes_or_text(r: Result<Vec<u8>, String>) -> Result<Seq<u8>, Seq<char>> {
    match r {
        Ok(b) => Ok(b@),
        Err(e) => Err(e@),
    }
}

/// Parses a base-58 peer id with `libp2p_identity::PeerId::from_str`.
/// Trusted: the result, the multihash bytes (`PeerId::to_bytes`) or the
/// `Display` text of the `ParseError`, is `peer_id_parse` of the text; the
/// function decodes base-58 and checks the multihash, so it depends on the text alone.
#[verifier::external_body]
fn peer_id_from_str(text: &str) -> (r: Result<Vec<u8>, String>)
    ensures
        bytes_or_text(r) == peer_id_parse(text@),
{
    match libp2p_identity::PeerId::from_str(text) {
        Ok(id) => Ok(id.to_bytes()),
        Err(e) => Err(e.to_string()),
    }
}

/// The identity of a peer, held as the bytes of its multihash.
#[derive(Clone, Debug, PartialEq, Eq)]
pub struct PeerId {
    pub bytes: Vec<u8>,
}

impl View for PeerId {
    type V = Seq<u8>;

    open spec fn view(&self) -> Seq<u8> {
        self.bytes@
    }
}

/// What a parsed peer id argument gives: the peer's bytes, or the message to report.
pub open spec fn peer_outcome(parsed: Result<Seq<u8>, Seq<char>>) -> Result<Seq<u8>, Seq<char>> {
    match parsed {
        Ok(b) => Ok(b),
        Err(e) => Err("peer_id parse error:"@ + e),
    }
}

/// What an optional peer id argument gives.
pub open spec fn peer_arg(arg: Option<Seq<char>>) -> Result<Seq<u8>, Seq<char>> {
    match arg {
        None => Err("Expected peer_id"@),
        Some(t) => peer_outcome(peer_id_parse(t)),
    }
}

/// A peer id result with its parts taken by their views.
pub open spec fn peer_or_text(r: Result<PeerId, String>) -> Result<Seq<u8>, Seq<char>> {
    match r {
        Ok(p) => Ok(p@),
        Err(e) => Err(e@),
    }
}

/// Turns the outcome of parsing a peer id into the peer, or into the message to report.
pub fn peer_id_outcome(parsed: Result<Vec<u8>, String>) -> (r: Result<PeerId, String>)
    ensures
        peer_or_text(r) == peer_outcome(bytes_or_text(parsed)),
{
    match parsed {
        Ok(bytes) => Ok(PeerId { bytes }),
        Err(e) => {
            let mut msg = "peer_id parse error:".to_owned();
            msg.append(e.as_str());
            Err(msg)
        },
    }
}

/// Parses an optional peer id argument; `Err` holds the message to report.
pub fn parse_peer_id(peer_id_str: Option<&str>) -> (r: Result<PeerId, String>)
    ensures
        peer_or_text(r) == peer_arg(
            match peer_id_str {
                Some(t) => Some(t@),
                None => None,
            },
        ),
{
    match peer_id_str {
        Some(text) => peer_id_outcome(peer_id_from_str(text)),
        None => Err("Expected peer_id".to_owned()),
    }
}

/// What a `p2p://<peer>/<repo>` address gives: the peer's bytes and the repo
/// name, or the message to report.
pub open spec fn mega_address(addr: Seq<char>) -> Result<(Seq<u8>, Seq<char>), Seq<char>> {
    let p = crate::text::split_on(addr, '/');
    if p.len() < 4 {
        Err("mega_address invalid"@)
    } else {
        match peer_id_parse(p[2]) {
            Ok(b) => Ok((b, p[3])),
            Err(e) => Err(e),
        }
    }
}

/// An address result with its parts taken by their views.
pub open spec fn address_view(r: Result<(PeerId, String), String>) -> Result<
    (Seq<u8>, Seq<char>),
    Seq<char>,
> {
    match r {
        Ok((p, name)) => Ok((p@, name@)),
        Err(e) => Err(e@),
    }
}

/// Pairs a parsed peer id with the repo name of an address.
pub fn address_outcome(parsed: Result<Vec<u8>, String>, repo_name: String) -> (r: Result<
    (PeerId, String),
    String,
>)
    ensures
        address_view(r) == match bytes_or_text(parsed) {
            Ok(b) => Ok((b, repo_name@)),
            Err(e) => Err(e),
        },
{
    match parsed {
        Ok(bytes) => Ok((PeerId { bytes }, repo_name)),
        Err(e) => Err(e),
    }
}

/// Parses `p2p://<peer>/<repo>`: the third `/`-separated piece is the peer id,
/// the fourth the repo name.
pub fn parse_mega_address(mega_address: &str) -> (r: Result<(PeerId, String), String>)
    ensures
        address_view(r) == crate::peer::mega_address(mega_address@),
{
    let v = split_char(mega_address, '/');
    if v.len() < 4 {
        return Err("mega_address invalid".to_owned());
    }
    assert(crate::text::texts(v@)[2] == v@[2]@ && crate::text::texts(v@)[3] == v@[3]@);
    let parsed = peer_id_from_str(v[2].as_str());
    address_outcome(parsed, v[3].clone())
}

proof fn lemma_address_pieces(peer: Seq<char>, repo: Seq<char>)
    requires
        forall|i: int| 0 <= i < peer.len() ==> peer[i] != '/',
        forall|i: int| 0 <= i < repo.len() ==> repo[i] != '/',
    ensures
        crate::text::split_on("p2p://"@ + peer + "/"@ + repo, '/') == seq![
            seq!['p', '2', 'p', ':'],
            Seq::<char>::empty(),
            peer,
            repo,
        ],
{
    reveal_strlit("p2p://");
    reveal_strlit("/");
    let sep = crate::text::char_sep('/');
    let e = Seq::<char>::empty();
    let head = seq!['p', '2', 'p', ':'];
    assert forall|i: int| 0 <= i < head.len() implies !sep(#[trigger] head[i]) by {}
    assert forall|i: int| 0 <= i < peer.len() implies !sep(#[trigger] peer[i]) by {}
    assert forall|i: int| 0 <= i < repo.len() implies !sep(#[trigger] repo[i]) by {}
    crate::text::lemma_split_append_plain(e, head, sep);
    assert(e + head =~= head);
    assert(crate::text::split_by(e, sep) =~= seq![e]);
    assert(crate::text::split_by(head, sep) =~= seq![head]);
    let s1 = head.push('/');
    crate::text::lemma_split_push_sep(head, sep, '/');
    let s2 = s1.push('/');
    crate::text::lemma_split_push_sep(s1, sep, '/');
    crate::text::lemma_split_append_plain(s2, peer, sep);
    assert(crate::text::split_by(s2 + peer, sep) =~= seq![head, e, peer]);
    let s3 = (s2 + peer).push('/');
    crate::text::lemma_split_push_sep(s2 + peer, sep, '/');
    crate::text::lemma_split_append_plain(s3, repo, sep);
    assert(crate::text::split_by(s3 + repo, sep) =~= seq![head, e, peer, repo]);
    assert("p2p://"@ + peer + "/"@ + repo =~= s3 + repo);
}

/// An address written `p2p://<peer>/<repo>`, with neither part holding a `/`,
/// gives the peer that `<peer>` names and the repo name `<repo>`.
pub proof fn law_mega_address_parts(peer: Seq<char>, repo: Seq<char>)
    requires
        forall|i: int| 0 <= i < peer.len() ==> peer[i] != '/',
        forall|i: int| 0 <= i < repo.len() ==> repo[i] != '/',
    ensures
        crate::peer::mega_address("p2p://"@ + peer + "/"@ + repo) == match peer_id_parse(peer) {
            Ok(b) => Ok((b, repo)),
            Err(e) => Err(e),
        },
{
    lemma_address_pieces(peer, repo);
}

/// Whatever follows `p2p://<peer>/<repo>` after a further `/` (a trailing
/// slash, more path), the address still gives that peer and the repo name
/// `<repo>`: the repo is the fourth piece, not the last.
pub proof fn law_mega_address_ignores_tail(peer: Seq<char>, repo: Seq<char>, tail: Seq<char>)
    requires
        forall|i: int| 0 <= i < peer.len() ==> peer[i] != '/',
        forall|i: int| 0 <= i < repo.len() ==> repo[i] != '/',
    ensures
        crate::peer::mega_address("p2p://"@ + peer + "/"@ + repo + seq!['/'] + tail)
            == match peer_id_parse(peer) {
            Ok(b) => Ok((b, repo)),
            Err(e) => Err(e),
        },
{
    lemma_address_pieces(peer, repo);
    let addr = "p2p://"@ + peer + "/"@ + repo;
    let sep = crate::text::char_sep('/');
    crate::text::lemma_split_keeps_prefix(addr, '/', tail, sep);
    assert(addr + seq!['/'] + tail =~= addr.push('/') + tail);
    let pieces = crate::text::split_on(addr + seq!['/'] + tail, '/');
    let four = crate::text::split_on(addr, '/');
    assert(four.len() == 4);
    assert(pieces.take(4) == four);
    assert(pieces[2] == pieces.take(4)[2]);
    assert(pieces[3] == pieces.take(4)[3]);
}

/// A peer id that libp2p parses is accepted with exactly its bytes; one it
/// rejects is reported with libp2p's message after `peer_id parse error:`.
pub proof fn law_peer_arg_follows_parser(t: Seq<char>)
    ensures
        match peer_id_parse(t) {
            Ok(b) => peer_arg(Some(t)) == Ok::<Seq<u8>, Seq<char>>(b),
            Err(e) => peer_arg(Some(t)) == Err::<Seq<u8>, Seq<char>>("peer_id parse error:"@ + e),
        },
        peer_arg(None) == Err::<Seq<u8>, Seq<char>>("Expected peer_id"@),
{
}

} // verus!
