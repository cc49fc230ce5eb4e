//! Random generation of six-character alphanumeric short codes.

use vstd::prelude::*;

verus! {

/// Number of characters in a short code.
pub const CODE_LEN: usize = 6;

/// Size of the code alphabet: 26 upper-case letters, 26 lower-case letters
/// and 10 digits.
pub const ALPHABET_SIZE: usize = 62;

/// Whether `c` belongs to the code alphabet `[A-Za-z0-9]`.
pub open spec fn is_code_char(c: char) -> bool {
    ('A' <= c && c <= 'Z') || ('a' <= c && c <= 'z') || ('0' <= c && c <= '9')
}

/// Whether `s` has the shape of a short code: exactly `CODE_LEN` characters,
/// each drawn from the code alphabet.
pub open spec fn is_code(s: Seq<char>) -> bool {
    s.len() == CODE_LEN && forall|i: int| 0 <= i < s.len() ==> is_code_char(#[trigger] s[i])
}

/// The byte of the code alphabet at position `i`: `A`..`Z`, then `a`..`z`,
/// then `0`..`9`.
pub open spec fn alphabet_byte(i: int) -> u8 {
    if i < 26 {
        (65 + i) as u8
    } else if i < 52 {
        (97 + (i - 26)) as u8
    } else {
        (48 + (i - 52)) as u8
    }
}

/// Relies on `rand::random_range`: returns a value drawn uniformly at random
/// from the given range, which is non-empty because `n > 0`.
#[verifier::external_body]
fn random_index(n: usize) -> (r: usize)
    requires
        n > 0,
    ensures
        r < n,
{
    rand::random_range(0..n)
}

/// Relies on `String::from_utf8`: a vector of ASCII bytes is valid UTF-8 and
/// decodes to the string of exactly those characters.
#[verifier::external_body]
fn ascii_bytes_to_string(bytes: Vec<u8>) -> (r: String)
    requires
        forall|i: int| 0 <= i < bytes@.len() ==> bytes@[i] < 128,
    ensures
        r@.len() == bytes@.len(),
        forall|i: int| 0 <= i < bytes@.len() ==> r@[i] == bytes@[i] as char,
{
    String::from_utf8(bytes).unwrap_or_default()
}

/// The alphabet character at position `i`, as executable code.
fn alphabet_byte_at(i: usize) -> (b: u8)
    requires
        i < ALPHABET_SIZE,
    ensures
        b == alphabet_byte(i as int),
        is_code_char(b as char),
        b < 128,
{
    if i < 26 {
        65 + (i as u8)
    } else if i < 52 {
        97 + ((i - 26) as u8)
    } else {
        48 + ((i - 52) as u8)
    }
}

/// Generates a fresh random short code: `CODE_LEN` characters drawn
/// independently and uniformly from the 62-character alphanumeric alphabet.
/// No state is retained between calls, and distinct calls may return equal
/// or different codes; callers handle collisions.
pub fn generate_short_code() -> (r: String)
    ensures
        is_code(r@),
{
    let mut bytes: Vec<u8> = Vec::new();
    let mut k: usize = 0;
    while k < CODE_LEN
        invariant
            k <= CODE_LEN,
            bytes@.len() == k,
            forall|i: int| 0 <= i < bytes@.len() ==> bytes@[i] < 128,
            forall|i: int| 0 <= i < bytes@.len() ==> is_code_char(#[trigger] bytes@[i] as char),
        decreases CODE_LEN - k,
    {
        let idx = random_index(ALPHABET_SIZE);
        let b = alphabet_byte_at(idx);
        bytes.push(b);
        k = k + 1;
    }
    let code = ascii_bytes_to_string(bytes);
    code
}

} // verus!
