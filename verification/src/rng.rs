use vstd::prelude::*;

verus! {

// The pseudo-random source. The engine requires nothing of the generator
// beyond what the contracts of its callers state of every outcome, so the
// declarations below carry no `ensures`.

/// Declares rand_mt's 64-bit Mersenne Twister so verified code can own
/// one; its state is opaque to the verifier.
#[verifier::external_type_specification]
#[verifier::external_body]
pub struct ExMt64(rand_mt::Mt64);

/// Relies on rand_mt::Mt64::new: seeds a fresh generator from a 64-bit
/// value. Nothing is assumed about the state produced.
pub assume_specification[ rand_mt::Mt64::new ](seed: u64) -> rand_mt::Mt64;

/// Relies on rand_mt::Mt64::next_u32: advances the generator and hands
/// back its next 32-bit output. Nothing is assumed about the value.
pub assume_specification[ rand_mt::Mt64::next_u32 ](rng: &mut rand_mt::Mt64) -> u32;

} // verus!
