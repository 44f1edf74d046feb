//! MD5 digests and their hexadecimal spelling.

use vstd::prelude::*;
use vstd::utf8::encode_utf8;

verus! {

/// The MD5 digest of `data`.
pub uninterp spec fn md5_of(data: Seq<u8>) -> Seq<u8>;

/// Relies on `md5::compute`: the sixteen bytes of the MD5 digest of `data`.
#[verifier::external_body]
fn md5_digest(data: &[u8]) -> (r: Vec<u8>)
    ensures
        r@ == md5_of(data@),
        r@.len() == 16,
{
    md5::compute(data).0.to_vec()
}

/// The hexadecimal digit of the nibble `n`, in upper or lower case.
pub open spec fn hex_digit(n: u8, upper: bool) -> char {
    if upper {
        seq!['0', '1', '2', '3', '4', '5', '6', '7', '8', '9', 'A', 'B', 'C', 'D', 'E', 'F'][n as int]
    } else {
        seq!['0', '1', '2', '3', '4', '5', '6', '7', '8', '9', 'a', 'b', 'c', 'd', 'e', 'f'][n as int]
    }
}

/// Two hexadecimal digits per byte, high nibble first.
pub open spec fn hex_text(b: Seq<u8>, upper: bool) -> Seq<char>
    decreases b.len(),
{
    if b.len() == 0 {
        Seq::empty()
    } else {
        hex_text(b.drop_last(), upper) + seq![hex_digit(b.last() / 16, upper), hex_digit(b.last() % 16, upper)]
    }
}

/// Relies on `hex::encode`: lower-case digits, two per byte, high nibble first.
#[verifier::external_body]
fn hex_lower(b: &[u8]) -> (r: String)
    ensures
        r@ == hex_text(b@, false),
{
    hex::encode(b)
}

/// Relies on `hex::encode_upper`: upper-case digits, two per byte, high
/// nibble first.
#[verifier::external_body]
fn hex_upper(b: &[u8]) -> (r: String)
    ensures
        r@ == hex_text(b@, true),
{
    hex::encode_upper(b)
}

proof fn lemma_hex_text_len(b: Seq<u8>, upper: bool)
    ensures
        hex_text(b, upper).len() == 2 * b.len(),
    decreases b.len(),
{
    if b.len() > 0 {
        lemma_hex_text_len(b.drop_last(), upper);
    }
}

/// The MD5 digest of the UTF-8 bytes of `s`, in hexadecimal.
pub open spec fn md5_hex_of(s: Seq<char>, upper: bool) -> Seq<char> {
    hex_text(md5_of(encode_utf8(s)), upper)
}

/// The MD5 digest of the UTF-8 bytes of `s`, as 32 hexadecimal digits.
pub fn md5_hex(s: &str, upper: bool) -> (r: String)
    ensures
        r@ == md5_hex_of(s@, upper),
        r@.len() == 32,
{
    let d = md5_digest(s.as_bytes());
    proof {
        lemma_hex_text_len(d@, upper);
    }
    if upper {
        hex_upper(d.as_slice())
    } else {
        hex_lower(d.as_slice())
    }
}

} // verus!
