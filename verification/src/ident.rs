//! Identifiers of messages and tickets.
//!
//! An identifier is a UUID, held as the 128-bit number that it denotes.

use vstd::prelude::*;

verus! {

/// The namespace under which message fingerprints are derived.
pub const MESSAGE_NAMESPACE: u128 = 0x6ba7b812_9dad_11d1_80b4_00c04fd430c8;

pub open spec fn pow16(n: nat) -> nat
    decreases n,
{
    if n == 0 {
        1
    } else {
        16 * pow16((n - 1) as nat)
    }
}

/// The lower-case hexadecimal digit for `n`, which is below 16.
pub open spec fn hex_digit(n: int) -> char {
    if n < 10 {
        ((48 + n) as u8) as char
    } else {
        ((87 + n) as u8) as char
    }
}

/// The usual text of an identifier: its 32 hexadecimal digits, highest
/// first, in groups of 8, 4, 4, 4 and 12 with a hyphen between them.
pub open spec fn id_text(id: u128) -> Seq<char> {
    Seq::new(
        36,
        |i: int|
            if i == 8 || i == 13 || i == 18 || i == 23 {
                '-'
            } else {
                let p = if i < 8 {
                    i
                } else if i < 13 {
                    i - 1
                } else if i < 18 {
                    i - 2
                } else if i < 23 {
                    i - 3
                } else {
                    i - 4
                };
                hex_digit((id as int / pow16((31 - p) as nat) as int) % 16)
            },
    )
}

/// The identifier that `uuid::Uuid::new_v5` derives from a namespace and a
/// name.
pub uninterp spec fn name_based_id(namespace: u128, name: Seq<u8>) -> u128;

/// `uuid::Uuid`'s `Display`, on the identifier that `from_u128` makes of
/// `id`: the hyphenated lower-case text.
#[verifier::external_body]
pub(crate) fn id_to_string(id: u128) -> (r: String)
    ensures
        r@ == id_text(id),
{
    uuid::Uuid::from_u128(id).to_string()
}

/// `uuid::Uuid::new_v4`: a random identifier. Nothing is known of it.
#[verifier::external_body]
pub(crate) fn fresh_id() -> u128 {
    uuid::Uuid::new_v4().as_u128()
}

/// `uuid::Uuid::new_v5`: the identifier derived from the SHA-1 hash of the
/// namespace and the name. The same namespace and name give the same
/// identifier.
#[verifier::external_body]
pub(crate) fn derive_id(namespace: u128, name: &[u8]) -> (r: u128)
    ensures
        r == name_based_id(namespace, name@),
{
    uuid::Uuid::new_v5(&uuid::Uuid::from_u128(namespace), name).as_u128()
}

} // verus!
