//! The interactive commands of a p2p node: `kad ...` and `mega ...` lines,
//! decided here and carried out by the caller on the network.

use vstd::prelude::*;
use vstd::string::StrSliceExecFns;
use crate::peer::{parse_mega_address, parse_peer_id, PeerId};
use crate::text::{split_whitespace, text_eq, trim_str};

verus! {

/// What a `kad` command asks of the DHT.
pub enum KadAction {
    GetRecord { key: Seq<u8> },
    PutRecord { key: Seq<u8>, value: Seq<u8> },
    ListKBuckets,
    GetClosestPeers { peer: Seq<u8> },
    Rejected { message: Seq<char> },
}

/// What a `kad` command asks of the DHT: a record lookup or store (keys and
/// values are the UTF-8 bytes of the arguments), a listing of the k-buckets,
/// a closest-peers query, or nothing, with the message to report.
pub enum KadCommand {
    GetRecord { key: Vec<u8> },
    PutRecord { key: Vec<u8>, value: Vec<u8> },
    ListKBuckets,
    GetClosestPeers { peer: PeerId },
    Rejected { message: String },
}

impl View for KadCommand {
    type V = KadAction;

    open spec fn view(&self) -> KadAction {
        match self {
            KadCommand::GetRecord { key } => KadAction::GetRecord { key: key@ },
            KadCommand::PutRecord { key, value } => KadAction::PutRecord {
                key: key@,
                value: value@,
            },
            KadCommand::ListKBuckets => KadAction::ListKBuckets,
            KadCommand::GetClosestPeers { peer } => KadAction::GetClosestPeers { peer: peer@ },
            KadCommand::Rejected { message } => KadAction::Rejected { message: message@ },
        }
    }
}

/// The decision for the arguments of a `kad` command.
pub open spec fn kad_action(args: Seq<Seq<char>>) -> KadAction {
    if args.len() > 0 && args[0] == "get"@ {
        if args.len() < 2 {
            KadAction::Rejected { message: "Expected key"@ }
        } else {
            KadAction::GetRecord { key: vstd::utf8::encode_utf8(args[1]) }
        }
    } else if args.len() > 0 && args[0] == "put"@ {
        if args.len() < 2 {
            KadAction::Rejected { message: "Expected key"@ }
        } else if args.len() < 3 {
            KadAction::Rejected { message: "Expected value"@ }
        } else {
            KadAction::PutRecord {
                key: vstd::utf8::encode_utf8(args[1]),
                value: vstd::utf8::encode_utf8(args[2]),
            }
        }
    } else if args.len() > 0 && args[0] == "k_buckets"@ {
        KadAction::ListKBuckets
    } else if args.len() > 0 && args[0] == "get_peer"@ {
        match crate::peer::peer_arg(
            if args.len() >= 2 {
                Some(args[1])
            } else {
                None
            },
        ) {
            Ok(peer) => KadAction::GetClosestPeers { peer },
            Err(message) => KadAction::Rejected { message },
        }
    } else {
        KadAction::Rejected { message: "expected command: get, put, k_buckets, get_peer"@ }
    }
}

/// Decides what the arguments of a `kad` command ask of the DHT.
pub fn handle_kad_command(args: &Vec<String>) -> (r: KadCommand)
    ensures
        r@ == kad_action(crate::text::texts(args@)),
{
    let ghost a = crate::text::texts(args@);
    if args.len() == 0 {
        return KadCommand::Rejected {
            message: "expected command: get, put, k_buckets, get_peer".to_owned(),
        };
    }
    assert(a[0] == args@[0]@);
    let cmd = args[0].as_str();
    if text_eq(cmd, "get") {
        if args.len() < 2 {
            return KadCommand::Rejected { message: "Expected key".to_owned() };
        }
        assert(a[1] == args@[1]@);
        KadCommand::GetRecord { key: args[1].as_str().as_bytes_vec() }
    } else if text_eq(cmd, "put") {
        if args.len() < 2 {
            return KadCommand::Rejected { message: "Expected key".to_owned() };
        }
        if args.len() < 3 {
            return KadCommand::Rejected { message: "Expected value".to_owned() };
        }
        assert(a[1] == args@[1]@ && a[2] == args@[2]@);
        KadCommand::PutRecord {
            key: args[1].as_str().as_bytes_vec(),
            value: args[2].as_str().as_bytes_vec(),
        }
    } else if text_eq(cmd, "k_buckets") {
        KadCommand::ListKBuckets
    } else if text_eq(cmd, "get_peer") {
        let arg = if args.len() >= 2 {
            assert(a[1] == args@[1]@);
            Some(args[1].as_str())
        } else {
            None
        };
        match parse_peer_id(arg) {
            Ok(peer) => KadCommand::GetClosestPeers { peer },
            Err(message) => KadCommand::Rejected { message },
        }
    } else {
        KadCommand::Rejected {
            message: "expected command: get, put, k_buckets, get_peer".to_owned(),
        }
    }
}

/// What a `mega` command asks for.
pub enum MegaAction {
    Provide { repo_name: Seq<char> },
    Clone { peer: Seq<u8>, repo_name: Seq<char> },
    Rejected { message: Seq<char> },
}

/// What a `mega` command asks for: to provide a local repository (its name
/// without `.git`), to clone a repository from a peer, or nothing, with the
/// message to report.
pub enum MegaCommand {
    Provide { repo_name: String },
    Clone { peer: PeerId, repo_name: String },
    Rejected { message: String },
}

impl View for MegaCommand {
    type V = MegaAction;

    open spec fn view(&self) -> MegaAction {
        match self {
            MegaCommand::Provide { repo_name } => MegaAction::Provide { repo_name: repo_name@ },
            MegaCommand::Clone { peer, repo_name } => MegaAction::Clone {
                peer: peer@,
                repo_name: repo_name@,
            },
            MegaCommand::Rejected { message } => MegaAction::Rejected { message: message@ },
        }
    }
}

/// Whether a name ends with `.git`.
pub open spec fn ends_with_git(name: Seq<char>) -> bool {
    name.len() >= 4 && name.subrange(name.len() - 4, name.len() as int) == ".git"@
}

/// The decision for the arguments of a `mega` command.
pub open spec fn mega_action(args: Seq<Seq<char>>) -> MegaAction {
    if args.len() > 0 && args[0] == "provide"@ {
        if args.len() < 2 {
            MegaAction::Rejected { message: "Expected repo_name"@ }
        } else if !ends_with_git(args[1]) {
            MegaAction::Rejected { message: "repo_name should end with .git"@ }
        } else {
            MegaAction::Provide { repo_name: args[1].subrange(0, args[1].len() - 4) }
        }
    } else if args.len() > 0 && args[0] == "clone"@ {
        if args.len() < 2 {
            MegaAction::Rejected { message: "Expected mega_address"@ }
        } else {
            match crate::peer::mega_address(args[1]) {
                Ok((peer, repo_name)) => MegaAction::Clone { peer, repo_name },
                Err(message) => MegaAction::Rejected { message },
            }
        }
    } else {
        MegaAction::Rejected { message: "expected command: clone, provide"@ }
    }
}

fn has_git_suffix(name: &str) -> (r: bool)
    ensures
        r == ends_with_git(name@),
{
    let n = name.unicode_len();
    if n < 4 {
        return false;
    }
    text_eq(name.substring_char(n - 4, n), ".git")
}

/// Decides what the arguments of a `mega` command ask for.
pub fn handle_mega_command(args: &Vec<String>) -> (r: MegaCommand)
    ensures
        r@ == mega_action(crate::text::texts(args@)),
{
    let ghost a = crate::text::texts(args@);
    if args.len() == 0 {
        return MegaCommand::Rejected { message: "expected command: clone, provide".to_owned() };
    }
    assert(a[0] == args@[0]@);
    let cmd = args[0].as_str();
    if text_eq(cmd, "provide") {
        if args.len() < 2 {
            return MegaCommand::Rejected { message: "Expected repo_name".to_owned() };
        }
        assert(a[1] == args@[1]@);
        let name = args[1].as_str();
        if !has_git_suffix(name) {
            return MegaCommand::Rejected { message: "repo_name should end with .git".to_owned() };
        }
        let n = name.unicode_len();
        MegaCommand::Provide { repo_name: name.substring_char(0, n - 4).to_owned() }
    } else if text_eq(cmd, "clone") {
        if args.len() < 2 {
            return MegaCommand::Rejected { message: "Expected mega_address".to_owned() };
        }
        assert(a[1] == args@[1]@);
        match parse_mega_address(args[1].as_str()) {
            Ok((peer, repo_name)) => MegaCommand::Clone { peer, repo_name },
            Err(message) => MegaCommand::Rejected { message },
        }
    } else {
        MegaCommand::Rejected { message: "expected command: clone, provide".to_owned() }
    }
}

/// What an input line asks for.
pub enum InputAction {
    Empty,
    Kad { kad: KadAction },
    Mega { mega: MegaAction },
    Rejected { message: Seq<char> },
}

/// What an input line asks for: nothing (a blank line), a `kad` or `mega`
/// command, or nothing, with the message to report.
pub enum InputCommand {
    Empty,
    Kad { kad: KadCommand },
    Mega { mega: MegaCommand },
    Rejected { message: String },
}

impl View for InputCommand {
    type V = InputAction;

    open spec fn view(&self) -> InputAction {
        match self {
            InputCommand::Empty => InputAction::Empty,
            InputCommand::Kad { kad } => InputAction::Kad { kad: kad@ },
            InputCommand::Mega { mega } => InputAction::Mega { mega: mega@ },
            InputCommand::Rejected { message } => InputAction::Rejected { message: message@ },
        }
    }
}

/// The decision for an input line: its first word picks the command, the
/// other words are its arguments.
pub open spec fn input_action(line: Seq<char>) -> InputAction {
    let t = crate::text::trim(line);
    let w = crate::text::words(t);
    if t.len() == 0 {
        InputAction::Empty
    } else if w.len() > 0 && w[0] == "kad"@ {
        InputAction::Kad { kad: kad_action(w.drop_first()) }
    } else if w.len() > 0 && w[0] == "mega"@ {
        InputAction::Mega { mega: mega_action(w.drop_first()) }
    } else {
        InputAction::Rejected { message: "expected command: kad, mega"@ }
    }
}

fn rest_of(v: &Vec<String>) -> (out: Vec<String>)
    requires
        v.len() > 0,
    ensures
        crate::text::texts(out@) == crate::text::texts(v@).drop_first(),
{
    let mut out: Vec<String> = Vec::new();
    let mut k: usize = 1;
    while k < v.len()
        invariant
            1 <= k <= v.len(),
            crate::text::texts(out@) == crate::text::texts(v@).subrange(1, k as int),
        decreases v.len() - k,
    {
        let ghost prev = crate::text::texts(out@);
        let item = v[k].clone();
        out.push(item);
        assert(crate::text::texts(out@) =~= prev.push(v@[k as int]@));
        assert(crate::text::texts(out@) =~= crate::text::texts(v@).subrange(1, k + 1));
        k = k + 1;
    }
    assert(crate::text::texts(v@).subrange(1, v.len() as int) =~= crate::text::texts(
        v@,
    ).drop_first());
    out
}

/// Decides what an input line of the node's console asks for.
pub fn handle_input_command(line: &str) -> (r: InputCommand)
    ensures
        r@ == input_action(line@),
{
    let t = trim_str(line);
    if t.unicode_len() == 0 {
        return InputCommand::Empty;
    }
    let w = split_whitespace(t);
    if w.len() == 0 {
        return InputCommand::Rejected { message: "expected command: kad, mega".to_owned() };
    }
    assert(crate::text::texts(w@)[0] == w@[0]@);
    let rest = rest_of(&w);
    if text_eq(w[0].as_str(), "kad") {
        InputCommand::Kad { kad: handle_kad_command(&rest) }
    } else if text_eq(w[0].as_str(), "mega") {
        InputCommand::Mega { mega: handle_mega_command(&rest) }
    } else {
        InputCommand::Rejected { message: "expected command: kad, mega".to_owned() }
    }
}

/// The request sent to a peer to fetch a repository: `git-upload-pack <path>`.
pub fn git_upload_pack_command(path: &str) -> (r: String)
    ensures
        r@ == "git-upload-pack "@ + path@,
{
    let mut command = "git-upload-pack ".to_owned();
    command.append(path);
    command
}

/// A line of whitespace alone asks for nothing; any other line asks for a
/// command or is answered with a message.
pub proof fn law_blank_line_ignored(line: Seq<char>)
    ensures
        (input_action(line) == InputAction::Empty) == (forall|i: int|
            0 <= i < line.len() ==> crate::text::is_space(#[trigger] line[i])),
{
    crate::text::lemma_trim_empty(line);
}

/// `mega provide <name>.git` provides the repository `<name>`.
pub proof fn law_provide_strips_git(name: Seq<char>)
    ensures
        mega_action(seq!["provide"@, name + ".git"@]) == (MegaAction::Provide { repo_name: name }),
{
    reveal_strlit(".git");
    let full = name + ".git"@;
    assert(full.subrange(full.len() - 4, full.len() as int) =~= ".git"@);
    assert(full.subrange(0, full.len() - 4) =~= name);
}

proof fn lemma_command_literals()
    ensures
        "get"@ != "put"@,
        "get"@ != "k_buckets"@,
        "get"@ != "get_peer"@,
        "put"@ != "k_buckets"@,
        "put"@ != "get_peer"@,
        "k_buckets"@ != "get_peer"@,
        "provide"@ != "clone"@,
        "kad"@ != "mega"@,
        crate::text::is_word("kad"@),
        crate::text::is_word("mega"@),
        "kad"@.len() == 3,
        "mega"@.len() == 4,
{
    reveal_strlit("get");
    reveal_strlit("put");
    reveal_strlit("k_buckets");
    reveal_strlit("get_peer");
    reveal_strlit("provide");
    reveal_strlit("clone");
    reveal_strlit("kad");
    reveal_strlit("mega");
    assert("get"@[0] != "put"@[0]);
    assert("get"@.len() != "k_buckets"@.len());
    assert("get"@.len() != "get_peer"@.len());
    assert("put"@.len() != "k_buckets"@.len());
    assert("put"@.len() != "get_peer"@.len());
    assert("k_buckets"@.len() != "get_peer"@.len());
    assert("provide"@.len() != "clone"@.len());
    assert("kad"@.len() != "mega"@.len());
}

/// `kad k_buckets` lists the k-buckets, whatever words follow.
pub proof fn law_kad_k_buckets(rest: Seq<Seq<char>>)
    ensures
        kad_action(seq!["k_buckets"@] + rest) == KadAction::ListKBuckets,
{
    lemma_command_literals();
    let args = seq!["k_buckets"@] + rest;
    assert(args[0] == "k_buckets"@);
}

/// `kad get <key>` looks up the record under the key's UTF-8 bytes, whatever
/// words follow; without a key it reports `Expected key`.
pub proof fn law_kad_get(key: Seq<char>, rest: Seq<Seq<char>>)
    ensures
        kad_action(seq!["get"@, key] + rest) == (KadAction::GetRecord {
            key: vstd::utf8::encode_utf8(key),
        }),
        kad_action(seq!["get"@]) == (KadAction::Rejected { message: "Expected key"@ }),
{
    lemma_command_literals();
    let args = seq!["get"@, key] + rest;
    assert(args[0] == "get"@ && args[1] == key);
}

/// `kad put <key> <value>` stores the value's UTF-8 bytes under the key's,
/// whatever words follow; a missing key or value is reported.
pub proof fn law_kad_put(key: Seq<char>, value: Seq<char>, rest: Seq<Seq<char>>)
    ensures
        kad_action(seq!["put"@, key, value] + rest) == (KadAction::PutRecord {
            key: vstd::utf8::encode_utf8(key),
            value: vstd::utf8::encode_utf8(value),
        }),
        kad_action(seq!["put"@]) == (KadAction::Rejected { message: "Expected key"@ }),
        kad_action(seq!["put"@, key]) == (KadAction::Rejected { message: "Expected value"@ }),
{
    lemma_command_literals();
    let args = seq!["put"@, key, value] + rest;
    assert(args[0] == "put"@ && args[1] == key && args[2] == value);
}

/// `kad get_peer <id>` asks for the peers closest to exactly the peer that
/// libp2p parses from `<id>`, whatever words follow; an id libp2p rejects is
/// reported with libp2p's message, and a missing one with `Expected peer_id`.
pub proof fn law_kad_get_peer(t: Seq<char>, rest: Seq<Seq<char>>)
    ensures
        match crate::peer::peer_id_parse(t) {
            Ok(b) => kad_action(seq!["get_peer"@, t] + rest) == (KadAction::GetClosestPeers {
                peer: b,
            }),
            Err(e) => kad_action(seq!["get_peer"@, t] + rest) == (KadAction::Rejected {
                message: "peer_id parse error:"@ + e,
            }),
        },
        kad_action(seq!["get_peer"@]) == (KadAction::Rejected { message: "Expected peer_id"@ }),
{
    lemma_command_literals();
    let args = seq!["get_peer"@, t] + rest;
    assert(args[0] == "get_peer"@ && args[1] == t);
}

/// A `kad` command word other than get, put, k_buckets and get_peer, or none,
/// is answered with the list of commands.
pub proof fn law_kad_unknown(word: Seq<char>, rest: Seq<Seq<char>>)
    requires
        word != "get"@,
        word != "put"@,
        word != "k_buckets"@,
        word != "get_peer"@,
    ensures
        kad_action(seq![word] + rest) == (KadAction::Rejected {
            message: "expected command: get, put, k_buckets, get_peer"@,
        }),
        kad_action(Seq::<Seq<char>>::empty()) == (KadAction::Rejected {
            message: "expected command: get, put, k_buckets, get_peer"@,
        }),
{
    assert((seq![word] + rest)[0] == word);
}

/// `mega clone <address>` clones exactly the peer and repo that the address
/// gives, whatever words follow, and reports what the address parser reports.
pub proof fn law_mega_clone(address: Seq<char>, rest: Seq<Seq<char>>)
    ensures
        mega_action(seq!["clone"@, address] + rest) == match crate::peer::mega_address(address) {
            Ok((peer, repo_name)) => MegaAction::Clone { peer, repo_name },
            Err(message) => MegaAction::Rejected { message },
        },
        mega_action(seq!["clone"@]) == (MegaAction::Rejected { message: "Expected mega_address"@ }),
{
    lemma_command_literals();
    let args = seq!["clone"@, address] + rest;
    assert(args[0] == "clone"@ && args[1] == address);
}

/// `mega clone p2p://<peer>/<repo>`, with or without more path after a
/// further `/`, clones `<repo>` from the peer that libp2p parses from `<peer>`.
pub proof fn law_mega_clone_address(
    peer: Seq<char>,
    repo: Seq<char>,
    tail: Seq<char>,
    rest: Seq<Seq<char>>,
)
    requires
        forall|i: int| 0 <= i < peer.len() ==> peer[i] != '/',
        forall|i: int| 0 <= i < repo.len() ==> repo[i] != '/',
        tail.len() == 0 || tail[0] == '/',
    ensures
        mega_action(seq!["clone"@, "p2p://"@ + peer + "/"@ + repo + tail] + rest)
            == match crate::peer::peer_id_parse(peer) {
            Ok(b) => MegaAction::Clone { peer: b, repo_name: repo },
            Err(message) => MegaAction::Rejected { message },
        },
{
    let address = "p2p://"@ + peer + "/"@ + repo + tail;
    law_mega_clone(address, rest);
    if tail.len() == 0 {
        assert(address =~= "p2p://"@ + peer + "/"@ + repo);
        crate::peer::law_mega_address_parts(peer, repo);
    } else {
        let y = tail.drop_first();
        assert(address =~= "p2p://"@ + peer + "/"@ + repo + seq!['/'] + y);
        crate::peer::law_mega_address_ignores_tail(peer, repo, y);
    }
}

/// `mega provide <name>.git` provides the repository `<name>`, whatever words
/// follow; a name without the `.git` ending is refused.
pub proof fn law_mega_provide(name: Seq<char>, rest: Seq<Seq<char>>)
    ensures
        mega_action(seq!["provide"@, name + ".git"@] + rest) == (MegaAction::Provide {
            repo_name: name,
        }),
        !ends_with_git(name) ==> mega_action(seq!["provide"@, name] + rest) == (
        MegaAction::Rejected { message: "repo_name should end with .git"@ }),
        mega_action(seq!["provide"@]) == (MegaAction::Rejected { message: "Expected repo_name"@ }),
{
    lemma_command_literals();
    reveal_strlit(".git");
    let full = name + ".git"@;
    let args = seq!["provide"@, full] + rest;
    assert(args[0] == "provide"@ && args[1] == full);
    assert(full.subrange(full.len() - 4, full.len() as int) =~= ".git"@);
    assert(full.subrange(0, full.len() - 4) =~= name);
    let args2 = seq!["provide"@, name] + rest;
    assert(args2[0] == "provide"@ && args2[1] == name);
}

/// A line `kad w1 ... wn` (words separated by single spaces) goes to the kad
/// handler with exactly the words `w1 ... wn`, however many there are.
pub proof fn law_line_kad_dispatch(rest: Seq<Seq<char>>)
    requires
        forall|j: int| 0 <= j < rest.len() ==> crate::text::is_word(#[trigger] rest[j]),
    ensures
        input_action("kad"@ + crate::text::spaced(rest)) == (InputAction::Kad {
            kad: kad_action(rest),
        }),
{
    lemma_command_literals();
    crate::text::lemma_words_of_spaced("kad"@, rest);
    let w = seq!["kad"@] + rest;
    assert(w[0] == "kad"@);
    assert(w.drop_first() =~= rest);
}

/// A line `mega w1 ... wn` goes to the mega handler with exactly the words
/// `w1 ... wn`, however many there are.
pub proof fn law_line_mega_dispatch(rest: Seq<Seq<char>>)
    requires
        forall|j: int| 0 <= j < rest.len() ==> crate::text::is_word(#[trigger] rest[j]),
    ensures
        input_action("mega"@ + crate::text::spaced(rest)) == (InputAction::Mega {
            mega: mega_action(rest),
        }),
{
    lemma_command_literals();
    crate::text::lemma_words_of_spaced("mega"@, rest);
    let w = seq!["mega"@] + rest;
    assert(w[0] == "mega"@);
    assert(w.drop_first() =~= rest);
}

/// A line whose first word is neither `kad` nor `mega` is answered with the
/// list of commands.
pub proof fn law_line_unknown(head: Seq<char>, rest: Seq<Seq<char>>)
    requires
        crate::text::is_word(head),
        head != "kad"@,
        head != "mega"@,
        forall|j: int| 0 <= j < rest.len() ==> crate::text::is_word(#[trigger] rest[j]),
    ensures
        input_action(head + crate::text::spaced(rest)) == (InputAction::Rejected {
            message: "expected command: kad, mega"@,
        }),
{
    crate::text::lemma_words_of_spaced(head, rest);
    let w = seq![head] + rest;
    assert(w[0] == head);
}

} // verus!
