//! Bytes as text: base64.
use vstd::prelude::*;

verus! {

/// The character of the standard alphabet for the six bits `v`.
pub open spec fn base64_char(v: int) -> char {
    if v < 26 {
        (v + 65) as char
    } else if v < 52 {
        (v + 71) as char
    } else if v < 62 {
        (v - 4) as char
    } else if v == 62 {
        '+'
    } else {
        '/'
    }
}

/// The byte at index `i`, or 0 past the end.
pub open spec fn byte_or_zero(bytes: Seq<u8>, i: int) -> int {
    if 0 <= i < bytes.len() {
        bytes[i] as int
    } else {
        0
    }
}

/// The `j`-th group of six bits among the three bytes from index `at` on.
pub open spec fn six_bits(bytes: Seq<u8>, at: int, j: int) -> int {
    let three = byte_or_zero(bytes, at) * 65536 + byte_or_zero(bytes, at + 1) * 256
        + byte_or_zero(bytes, at + 2);
    if j == 0 {
        three / 262144
    } else if j == 1 {
        (three / 4096) % 64
    } else if j == 2 {
        (three / 64) % 64
    } else {
        three % 64
    }
}

/// How many characters the base64 text of `n` bytes has.
pub open spec fn base64_len(n: nat) -> nat {
    ((n + 2) / 3 * 4) as nat
}

/// The base64 text of `bytes`: four characters for every three bytes, the last
/// group filled up with `=`.
pub open spec fn base64(bytes: Seq<u8>) -> Seq<char> {
    Seq::new(
        base64_len(bytes.len()),
        |k: int|
            if k / 4 * 3 + k % 4 > bytes.len() {
                '='
            } else {
                base64_char(six_bits(bytes, k / 4 * 3, k % 4))
            },
    )
}

/// `Engine::encode` of the `base64` crate with its `STANDARD` engine: the base64
/// text in the standard alphabet, with padding. Room for the text is allocated
/// in one piece, so that its length has to fit in `isize`.
#[verifier::external_body]
pub(crate) fn base64_encode(bytes: &[u8]) -> (text: String)
    requires
        base64_len(bytes@.len()) <= isize::MAX,
    ensures
        text@ == base64(bytes@),
{
    base64::Engine::encode(&base64::engine::general_purpose::STANDARD, bytes)
}

} // verus!
