//! Operating-system randomness for run seeds and identifiers.

use vstd::prelude::*;

use crate::text::{append_hex, hex_digits, lemma_hex_digits_len};

verus! {

/// Calls `rand::random::<u128>()` (rand), which draws from the thread-local generator that
/// the operating system seeds. Nothing is stated of the value: it is chance.
#[verifier::external_body]
fn random_u128() -> u128 {
    rand::random::<u128>()
}

/// A random 128-bit identifier in hexadecimal: 32 lowercase digits, zero-padded. Run and
/// session IDs are opaque to clients.
pub fn random_id() -> (id: String)
    ensures
        id@.len() == 32,
        exists|v: u128| id@ == hex_digits(v as nat, 32),
{
    let v = random_u128();
    let mut id = String::new();
    append_hex(&mut id, v, 32);
    proof {
        lemma_hex_digits_len(v as nat, 32);
        assert(id@ =~= hex_digits(v as nat, 32));
    }
    id
}

/// A random run seed: the low 64 bits of a random 128-bit value.
pub fn random_seed() -> u64 {
    (random_u128() % 0x1_0000_0000_0000_0000) as u64
}

} // verus!
