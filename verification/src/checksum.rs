//! SHA-256 checksums of file contents, rendered as lower-case hex.

use vstd::prelude::*;
use sha2::Digest;

verus! {

/// The SHA-256 digest of `data`, as the `sha2` crate computes it.
pub uninterp spec fn sha256(data: Seq<u8>) -> Seq<u8>;

/// `sha2::Sha256::digest`: the 32-byte SHA-256 digest of `data`. The
/// contract claims that the result is the digest of exactly these bytes
/// (a function of them alone) and that it is 32 bytes long, as the
/// digest's output size says.
#[verifier::external_body]
fn sha256_digest(data: &[u8]) -> (r: Vec<u8>)
    ensures
        r@ == sha256(data@),
        r.len() == 32,
{
    sha2::Sha256::digest(data).to_vec()
}

/// The lower-case hex digit of `n` (`0 <= n < 16`).
pub open spec fn hex_digit(n: int) -> char {
    if n < 10 {
        (48 + n) as char
    } else {
        (87 + n) as char
    }
}

/// Lower-case hex rendering of a byte string, two digits per byte, high
/// nibble first (what `{:x}` prints for a digest).
pub open spec fn hex_lower(bytes: Seq<u8>) -> Seq<char>
    decreases bytes.len(),
{
    if bytes.len() == 0 {
        Seq::<char>::empty()
    } else {
        hex_lower(bytes.drop_last()) + seq![
            hex_digit(bytes.last() as int / 16),
            hex_digit(bytes.last() as int % 16),
        ]
    }
}

fn hex_digit_exec(n: u8) -> (c: char)
    requires
        n < 16,
    ensures
        c == hex_digit(n as int),
{
    if n < 10 {
        (48u8 + n) as char
    } else {
        (87u8 + n) as char
    }
}

/// Renders `bytes` as lower-case hex.
pub fn to_hex_lower(bytes: &[u8]) -> (r: String)
    ensures
        r@ == hex_lower(bytes@),
{
    let mut out: Vec<char> = Vec::new();
    let mut i: usize = 0;
    while i < bytes.len()
        invariant
            i <= bytes.len(),
            out@ == hex_lower(bytes@.take(i as int)),
        decreases bytes.len() - i,
    {
        let b = bytes[i];
        out.push(hex_digit_exec(b / 16));
        out.push(hex_digit_exec(b % 16));
        i += 1;
        assert(bytes@.take(i as int).drop_last() =~= bytes@.take((i - 1) as int));
        assert(out@ =~= hex_lower(bytes@.take(i as int)));
    }
    assert(bytes@.take(bytes.len() as int) =~= bytes@);
    crate::text::string_of(&out)
}

/// The checksum the library records for a file: the lower-case hex of its
/// SHA-256 digest.
pub open spec fn checksum_of(data: Seq<u8>) -> Seq<char> {
    hex_lower(sha256(data))
}

/// The SHA-256 checksum of `data`, in lower-case hex.
pub fn sha256_hex(data: &[u8]) -> (r: String)
    ensures
        r@ == checksum_of(data@),
{
    let digest = sha256_digest(data);
    to_hex_lower(digest.as_slice())
}

} // verus!
