//! Chance: what the library draws from the random number generator.

use crate::text::{hex_fixed, hex_u128, hexadecimal_has_its_width};
use rand::RngExt;
use vstd::prelude::*;

verus! {

/// `rand::rng().random::<u128>()`: some 128-bit number.
#[verifier::external_body]
fn random_u128() -> u128 {
    rand::rng().random::<u128>()
}

/// `rand::rng().random_range(0..=max)`: some number from 0 to `max`, both
/// included.
#[verifier::external_body]
pub(crate) fn random_up_to(max: u64) -> (r: u64)
    ensures
        r <= max,
{
    rand::rng().random_range(0..=max)
}

/// Whether a text is an event id: a 128-bit number in 32 hexadecimal digits.
pub open spec fn is_id(s: Seq<char>) -> bool {
    exists|n: u128| s == #[trigger] hex_fixed(n as nat, 32)
}

/// Whether a text is a secret: two 128-bit numbers, 64 hexadecimal digits.
pub open spec fn is_secret(s: Seq<char>) -> bool {
    exists|a: u128, b: u128|
        s == #[trigger] hex_fixed(a as nat, 32) + #[trigger] hex_fixed(b as nat, 32)
}

/// A random event id.
pub fn new_id() -> (r: String)
    ensures
        is_id(r@),
{
    let n: u128 = random_u128();
    let out = hex_u128(n);
    assert(out@ == hex_fixed(n as nat, 32));
    out
}

/// A random 256-bit secret in hexadecimal.
pub fn random_secret() -> (r: String)
    ensures
        is_secret(r@),
{
    let a: u128 = random_u128();
    let b: u128 = random_u128();
    let mut out = hex_u128(a);
    let rest = hex_u128(b);
    out.append(rest.as_str());
    assert(out@ == hex_fixed(a as nat, 32) + hex_fixed(b as nat, 32));
    out
}

/// An event id has thirty-two hexadecimal digits, and a secret twice as many.
pub proof fn ids_and_secrets_have_their_length(s: Seq<char>)
    ensures
        is_id(s) ==> s.len() == 32,
        is_secret(s) ==> s.len() == 64,
        is_id(s) || is_secret(s) ==> forall|i: int|
            0 <= i < s.len() ==> {
                let c = #[trigger] s[i] as int;
                48 <= c <= 57 || 97 <= c <= 102
            },
{
    if is_id(s) {
        let n = choose|n: u128| s == #[trigger] hex_fixed(n as nat, 32);
        hexadecimal_has_its_width(n as nat, 32);
    }
    if is_secret(s) {
        let (a, b) = choose|a: u128, b: u128|
            s == #[trigger] hex_fixed(a as nat, 32) + #[trigger] hex_fixed(b as nat, 32);
        hexadecimal_has_its_width(a as nat, 32);
        hexadecimal_has_its_width(b as nat, 32);
        assert forall|i: int| 0 <= i < s.len() implies {
            let c = #[trigger] s[i] as int;
            48 <= c <= 57 || 97 <= c <= 102
        } by {
            if i < 32 {
                assert(s[i] == hex_fixed(a as nat, 32)[i]);
            } else {
                assert(s[i] == hex_fixed(b as nat, 32)[i - 32]);
            }
        }
    }
}

} // verus!
