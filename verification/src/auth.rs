//! Who is let in: a request has to carry the expected signature.

use vstd::prelude::*;

verus! {

/// The ASCII code of the lower-case hex digit for a value below 16.
pub open spec fn hex_digit(n: u8) -> u8 {
    if n < 10 {
        (48 + n) as u8
    } else {
        (87 + n) as u8
    }
}

/// A byte string in lower-case hex: two digits for each byte, the high
/// half first.
pub open spec fn hex_of(bytes: Seq<u8>) -> Seq<u8> {
    Seq::new(
        2 * bytes.len(),
        |i: int|
            if i % 2 == 0 {
                hex_digit(bytes[i / 2] / 16)
            } else {
                hex_digit(bytes[i / 2] % 16)
            },
    )
}

/// The hex digit for a value below 16.
fn digit(n: u8) -> (d: u8)
    requires
        n < 16,
    ensures
        d == hex_digit(n),
{
    if n < 10 {
        48 + n
    } else {
        87 + n
    }
}

/// Writes a byte string, such as the tag of a message, in lower-case hex:
/// the form in which a request carries its signature.
pub fn hex_encode(bytes: &[u8]) -> (out: Vec<u8>)
    ensures
        out@ == hex_of(bytes@),
{
    let mut out: Vec<u8> = Vec::new();
    let mut i: usize = 0;
    while i < bytes.len()
        invariant
            i <= bytes.len(),
            out@.len() == 2 * i,
            forall|k: int| 0 <= k < 2 * i ==> #[trigger] out@[k] == hex_of(bytes@)[k],
        decreases bytes.len() - i,
    {
        let b: u8 = bytes[i];
        out.push(digit(b / 16));
        out.push(digit(b % 16));
        i += 1;
    }
    assert(out@ =~= hex_of(bytes@));
    out
}

/// A request is let in when it carries a signature and that signature is
/// the expected one, byte for byte.
pub open spec fn authorized(expected: Seq<u8>, presented: Option<&[u8]>) -> bool {
    match presented {
        Some(p) => p@ == expected,
        None => false,
    }
}

/// Compares two byte strings with `orion::util::secure_cmp`, whose running
/// time does not depend on where they differ. That function returns `Ok`
/// exactly when both have the same length and the same bytes; the result
/// here is whether it did.
#[verifier::external_body]
fn constant_time_eq(a: &[u8], b: &[u8]) -> (same: bool)
    ensures
        same == (a@ == b@),
{
    orion::util::secure_cmp(a, b).is_ok()
}

/// Whether the signature that a request carries is the expected one. The
/// comparison takes constant time.
pub fn verify_signature(expected: &[u8], presented: Option<&[u8]>) -> (ok: bool)
    ensures
        ok == authorized(expected@, presented),
{
    match presented {
        Some(p) => constant_time_eq(p, expected),
        None => false,
    }
}

} // verus!
