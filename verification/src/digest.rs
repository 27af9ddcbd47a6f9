use vstd::prelude::*;

use vstd::utf8::encode_utf8;

use crate::text::string_of;

verus! {

/// What `md5::compute` returns for a byte sequence: its MD5 digest.
pub uninterp spec fn md5_of(data: Seq<u8>) -> Seq<u8>;

/// Calls `md5::compute`; the digest is named `md5_of` of the bytes.
#[verifier::external_body]
fn md5_digest(data: &[u8]) -> (r: [u8; 16])
    ensures
        r@ == md5_of(data@),
{
    md5::compute(data).0
}

/// The lower-case hexadecimal digit for a value below sixteen.
pub open spec fn hex_digit(d: nat) -> char {
    if d < 10 {
        (('0' as u32) + d) as char
    } else {
        (('a' as u32) + d - 10) as char
    }
}

/// Each byte as two lower-case hexadecimal digits, as `{:02x}` writes it.
pub open spec fn hex_lower(data: Seq<u8>) -> Seq<char>
    decreases data.len(),
{
    if data.len() == 0 {
        seq![]
    } else {
        seq![hex_digit(data[0] as nat / 16), hex_digit(data[0] as nat % 16)] + hex_lower(
            data.drop_first(),
        )
    }
}

/// The review hash of an item text: its MD5 digest over UTF-8 in lower-case hex.
pub open spec fn spec_review_hash(text: Seq<char>) -> Seq<char> {
    hex_lower(md5_of(encode_utf8(text)))
}

fn hex_char(d: u8) -> (c: char)
    requires
        d < 16,
    ensures
        c == hex_digit(d as nat),
{
    if d < 10 {
        (d + 48) as char
    } else {
        (d + 87) as char
    }
}

proof fn lemma_hex_lower_append(a: Seq<u8>, b: u8)
    ensures
        hex_lower(a.push(b)) == hex_lower(a) + seq![hex_digit(b as nat / 16), hex_digit(b as nat % 16)],
    decreases a.len(),
{
    if a.len() == 0 {
        assert(a.push(b).drop_first() =~= Seq::<u8>::empty());
        assert(hex_lower(Seq::<u8>::empty()) == Seq::<char>::empty());
    } else {
        assert(a.push(b).drop_first() =~= a.drop_first().push(b));
        lemma_hex_lower_append(a.drop_first(), b);
    }
}

/// Writes bytes in lower-case hexadecimal, two digits per byte.
pub fn to_hex_lower(data: &[u8]) -> (r: String)
    ensures
        r@ == hex_lower(data@),
{
    let mut out: Vec<char> = Vec::new();
    let mut i: usize = 0;
    assert(data@.take(0) =~= Seq::<u8>::empty());
    while i < data.len()
        invariant
            i <= data.len(),
            out@ == hex_lower(data@.take(i as int)),
        decreases data.len() - i,
    {
        let b = data[i];
        out.push(hex_char(b / 16));
        out.push(hex_char(b % 16));
        proof {
            assert(data@.take(i + 1) =~= data@.take(i as int).push(b));
            lemma_hex_lower_append(data@.take(i as int), b);
        }
        i += 1;
    }
    assert(data@.take(data.len() as int) =~= data@);
    string_of(out.as_slice())
}

/// The hash under which a review is recorded: the MD5 digest of the item text in
/// lower-case hex.
pub fn review_hash(text: &str) -> (r: String)
    ensures
        r@ == spec_review_hash(text@),
{
    let bytes = text.as_bytes();
    let digest = md5_digest(bytes);
    to_hex_lower(&digest)
}

} // verus!
