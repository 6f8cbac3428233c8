//! Git object ids: the SHA-1 of an object's type, length and content.

use sha1::Digest;
use vstd::prelude::*;

verus! {

/// What the `sha1` crate's SHA-1 digest of a byte sequence is.
pub uninterp spec fn sha1_digest(data: Seq<u8>) -> Seq<u8>;

/// Digests bytes with `sha1::Sha1::digest`. Trusted: the 20 bytes are
/// `sha1_digest` of the data, a function of the data alone.
#[verifier::external_body]
fn sha1_of(data: &[u8]) -> (r: [u8; 20])
    ensures
        r@ == sha1_digest(data@),
{
    sha1::Sha1::digest(data).into()
}

/// The id of a git object: a SHA-1 digest.
#[derive(Clone, Copy, Debug, PartialEq, Eq, Hash)]
pub struct SHA1(pub [u8; 20]);

/// The ASCII digits of `n` in decimal, most significant first, no leading zeros.
pub open spec fn decimal(n: nat) -> Seq<u8>
    decreases n,
{
    if n < 10 {
        seq![(n + 48) as u8]
    } else {
        decimal(n / 10).push((n % 10 + 48) as u8)
    }
}

/// The decimal digits of `n`.
pub fn decimal_bytes(n: usize) -> (r: Vec<u8>)
    ensures
        r@ == decimal(n as nat),
    decreases n,
{
    if n < 10 {
        let mut v: Vec<u8> = Vec::new();
        v.push((n as u8) + 48);
        v
    } else {
        let mut v = decimal_bytes(n / 10);
        v.push(((n % 10) as u8) + 48);
        v
    }
}

/// The bytes `blob ` that open a blob object.
pub open spec fn blob_tag() -> Seq<u8> {
    seq![98u8, 108u8, 111u8, 98u8, 32u8]
}

/// The bytes of a blob object holding `content`: `blob <length>\0<content>`.
pub open spec fn blob_object(content: Seq<u8>) -> Seq<u8> {
    blob_tag() + decimal(content.len()) + seq![0u8] + content
}

/// The bytes of the blob object that holds `content`.
pub fn blob_object_bytes(content: &[u8]) -> (r: Vec<u8>)
    ensures
        r@ == blob_object(content@),
{
    let mut data: Vec<u8> = Vec::new();
    data.push(98);
    data.push(108);
    data.push(111);
    data.push(98);
    data.push(32);
    let mut digits = decimal_bytes(content.len());
    data.append(&mut digits);
    data.push(0);
    let mut body = vstd::slice::slice_to_vec(content);
    data.append(&mut body);
    assert(data@ =~= blob_object(content@));
    data
}

/// The id of the blob that holds `content`: for a file tracked by LFS the
/// content is its pointer text, for any other file the file's bytes.
pub fn calc_file_blob_hash(content: &[u8]) -> (r: SHA1)
    ensures
        r.0@ == sha1_digest(blob_object(content@)),
{
    let data = blob_object_bytes(content);
    SHA1(sha1_of(data.as_slice()))
}

/// The number that ASCII decimal digits stand for.
pub open spec fn digits_value(d: Seq<u8>) -> int
    decreases d.len(),
{
    if d.len() == 0 {
        0
    } else {
        digits_value(d.drop_last()) * 10 + (d.last() - 48)
    }
}

/// The decimal digits of `n` are ASCII digits and read back as `n`.
pub proof fn law_decimal_reads_back(n: nat)
    ensures
        decimal(n).len() >= 1,
        forall|i: int| 0 <= i < decimal(n).len() ==> 48 <= #[trigger] decimal(n)[i] <= 57,
        digits_value(decimal(n)) == n,
    decreases n,
{
    if n >= 10 {
        law_decimal_reads_back(n / 10);
        let d = decimal(n);
        assert(d.drop_last() =~= decimal(n / 10));
        assert(d.last() == ((n % 10 + 48) as u8));
        assert(((n % 10 + 48) as u8) == n % 10 + 48);
        assert((n / 10) * 10 + n % 10 == n);
        assert(digits_value(d) == digits_value(decimal(n / 10)) * 10 + (n % 10));
        assert forall|i: int| 0 <= i < d.len() implies 48 <= #[trigger] d[i] <= 57 by {
            if i < d.len() - 1 {
                assert(d[i] == decimal(n / 10)[i]);
            }
        }
    } else {
        assert(decimal(n).drop_last() =~= Seq::<u8>::empty());
        assert(((n + 48) as u8) == n + 48);
        assert(digits_value(decimal(n).drop_last()) == 0);
    }
}

/// The bytes of a blob object determine its content, so blobs with different
/// contents are hashed from different bytes.
pub proof fn law_blob_object_determines_content(a: Seq<u8>, b: Seq<u8>)
    requires
        blob_object(a) == blob_object(b),
    ensures
        a == b,
{
    law_decimal_reads_back(a.len());
    law_decimal_reads_back(b.len());
    let da = decimal(a.len());
    let db = decimal(b.len());
    let o = blob_object(a);
    assert(o == blob_object(b));
    assert(o[5 + da.len() as int] == 0);
    assert(blob_object(b)[5 + db.len() as int] == 0);
    if da.len() < db.len() {
        assert(blob_object(b)[5 + da.len() as int] == db[da.len() as int]);
        assert(false);
    }
    if db.len() < da.len() {
        assert(o[5 + db.len() as int] == da[db.len() as int]);
        assert(false);
    }
    assert(da =~= o.subrange(5, 5 + da.len() as int));
    assert(db =~= blob_object(b).subrange(5, 5 + db.len() as int));
    assert(a =~= o.skip(6 + da.len() as int));
    assert(b =~= blob_object(b).skip(6 + db.len() as int));
}

/// A blob object is `blob `, then ASCII decimal digits that read as the
/// content's length in bytes, then a zero byte, then the content itself.
pub proof fn law_blob_header_counts_bytes(c: Seq<u8>)
    ensures
        ({
            let o = blob_object(c);
            let k = o.len() - c.len() - 1;
            &&& 5 < k
            &&& o.subrange(0, 5) == seq![98u8, 108u8, 111u8, 98u8, 32u8]
            &&& forall|i: int| 5 <= i < k ==> 48 <= #[trigger] o[i] <= 57
            &&& digits_value(o.subrange(5, k)) == c.len()
            &&& o[k] == 0
            &&& o.skip(k + 1) == c
        }),
{
    law_decimal_reads_back(c.len());
    let d = decimal(c.len());
    let o = blob_object(c);
    let k = o.len() - c.len() - 1;
    assert(k == 5 + d.len());
    assert(o.subrange(0, 5) =~= seq![98u8, 108u8, 111u8, 98u8, 32u8]);
    assert(o.subrange(5, k) =~= d);
    assert forall|i: int| 5 <= i < k implies 48 <= #[trigger] o[i] <= 57 by {
        assert(o[i] == d[i - 5]);
    }
    assert(o.skip(k + 1) =~= c);
}

} // verus!
