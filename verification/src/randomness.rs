//! Deterministic target derivation: an opaque entropy value plus a context
//! integer become a reproducible target in `[1, 99]`.
//!
//! The pipeline hashes `entropy ++ LE(context)` with blake2b-256, seeds a
//! reproducible generator from the digest, draws uniformly in `[0, 98]` and
//! adds 1. Determinism is load-bearing: the derivation runs inside a
//! replayable state transition, so the same `(entropy, context)` pair must
//! always yield the same target. The context must vary per finalization so
//! that repeated entropy does not repeat a target.

use vstd::bytes::spec_u64_to_le_bytes;
use vstd::bytes::u64_to_le_bytes;
use vstd::prelude::*;

verus! {

/// The blake2b-256 digest of a byte string. The digest is a pure function of
/// the bytes; writing the algorithm out here would state nothing checkable,
/// so the result only carries a name.
pub uninterp spec fn blake2_of(data: Seq<u8>) -> Seq<u8>;

/// The one uniform draw in `[0, max]` taken from a reproducible ChaCha20
/// generator seeded with the 32-byte `seed`: a pure function of `(seed, max)`.
pub uninterp spec fn pick_of(seed: Seq<u8>, max: u32) -> u32;

/// Relies on `sp_runtime::traits::BlakeTwo256::hash`: the blake2b-256 digest
/// of the input, 32 bytes, depending on the input bytes alone.
#[verifier::external_body]
fn blake2_256_digest(data: &Vec<u8>) -> (digest: Vec<u8>)
    ensures
        digest@ == blake2_of(data@),
        digest@.len() == 32,
{
    let h = <sp_runtime::traits::BlakeTwo256 as sp_runtime::traits::Hash>::hash(data.as_slice());
    h.as_bytes().to_vec()
}

/// Relies on `rand_chacha::ChaCha20Rng::from_seed`, whose output stream is a
/// reproducible function of the seed, and `rand::Rng::gen_range`, which draws
/// uniformly from `0..=max` (never empty, so it never panics).
#[verifier::external_body]
fn pick_in_range(seed: &Vec<u8>, max: u32) -> (pick: u32)
    requires
        seed@.len() == 32,
    ensures
        pick == pick_of(seed@, max),
        pick <= max,
{
    let mut seed_bytes = [0u8; 32];
    seed_bytes.copy_from_slice(seed.as_slice());
    let mut rng = <rand_chacha::ChaCha20Rng as rand::SeedableRng>::from_seed(seed_bytes);
    rand::Rng::gen_range(&mut rng, 0..=max)
}

/// What `derive` returns: the target is a pure function of the entropy and
/// the context, which is what makes the derivation replayable.
pub open spec fn derive_spec(entropy: Seq<u8>, context: u64) -> u32 {
    (pick_of(blake2_of(entropy + spec_u64_to_le_bytes(context)), 98) + 1) as u32
}

/// Law (determinism): two derivations from identical entropy and context
/// yield identical targets — each equals `derive_spec` of the inputs, a
/// function of nothing else.
pub proof fn lemma_derive_deterministic(
    first: u32,
    second: u32,
    entropy: Seq<u8>,
    context: u64,
)
    requires
        first == derive_spec(entropy, context),
        second == derive_spec(entropy, context),
    ensures
        first == second,
{
}

/// Derives the session target from host-supplied entropy and a per-
/// finalization context. Always yields a value in `[1, 99]`; identical
/// inputs always yield identical targets.
pub fn derive(entropy: &Vec<u8>, context: u64) -> (target: u32)
    ensures
        target == derive_spec(entropy@, context),
        1 <= target <= 99,
{
    let mut buffer: Vec<u8> = Vec::new();
    let mut i: usize = 0;
    while i < entropy.len()
        invariant
            i <= entropy@.len(),
            buffer@ == entropy@.take(i as int),
        decreases entropy@.len() - i,
    {
        buffer.push(entropy[i]);
        proof {
            assert(entropy@.take(i as int + 1) =~= entropy@.take(i as int).push(entropy@[i as int]));
        }
        i = i + 1;
    }
    proof {
        assert(entropy@.take(entropy@.len() as int) =~= entropy@);
    }
    let mut context_bytes = u64_to_le_bytes(context);
    let ghost le = context_bytes@;
    buffer.append(&mut context_bytes);
    proof {
        assert(buffer@ == entropy@ + le);
    }
    let digest = blake2_256_digest(&buffer);
    let pick = pick_in_range(&digest, 98);
    pick + 1
}

} // verus!
