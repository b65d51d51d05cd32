//! Seed expansion shared by every generator.
use vstd::prelude::*;

verus! {

/// Arbitrary value mixed into every seed before it reaches a generator.
pub const ENTROPY: u64 = 0x5fd8_9eda_3130_256d;

/// Value mixed into the clock when the user seed is zero.
pub const ZERO_SEED_MIX: u64 = 0xdead_beef_cafe_babe;

/// Up to four sub-seeds derived from one user seed.
#[derive(Debug)]
pub struct Seeds {
    pub state_w: usize,
    pub state_x: usize,
    pub state_y: usize,
    pub state_z: usize,
}

/// The `i`-th sub-seed of the chain that starts from `base`:
/// `s_0 = base ^ ENTROPY ^ 0`, `s_i = s_{i-1} ^ ENTROPY ^ i`.
pub open spec fn seed_chain(base: u64, i: nat) -> u64
    decreases i,
{
    if i == 0 {
        base ^ ENTROPY
    } else {
        seed_chain(base, (i - 1) as nat) ^ ENTROPY ^ (i as u64)
    }
}

/// What `generate_seeds` returns for a chain base and a number of sub-seeds:
/// the first `num` sub-seeds of the chain, zero for the others.
pub open spec fn seeds_of(base: u64, num: nat) -> (u64, u64, u64, u64) {
    (
        seed_chain(base, 0),
        if num >= 2 { seed_chain(base, 1) } else { 0 },
        if num >= 3 { seed_chain(base, 2) } else { 0 },
        if num >= 4 { seed_chain(base, 3) } else { 0 },
    )
}

impl Seeds {
    /// The four fields hold the four values of `t`, each cut to the width of `usize`.
    pub open spec fn holds(&self, t: (u64, u64, u64, u64)) -> bool {
        &&& self.state_w == t.0 as usize
        &&& self.state_x == t.1 as usize
        &&& self.state_y == t.2 as usize
        &&& self.state_z == t.3 as usize
    }
}

/// Relies on `SystemTime::elapsed` of the Unix epoch: the time now, in nanoseconds,
/// an arbitrary value that changes from call to call. Nothing is known of it.
#[verifier::external_body]
fn timestamp_counter() -> (r: u64) {
    std::time::UNIX_EPOCH.elapsed().map_or(0, |d| d.as_nanos() as u64)
}

/// Expands a chain base into `num_seeds` sub-seeds.
pub fn seeds_from_base(base: u64, num_seeds: usize) -> (r: [u64; 4])
    requires
        1 <= num_seeds <= 4,
    ensures
        (r@[0], r@[1], r@[2], r@[3]) == seeds_of(base, num_seeds as nat),
{
    let mut out: [u64; 4] = [0, 0, 0, 0];
    let mut last: u64 = base;
    let mut i: usize = 0;
    while i < num_seeds
        invariant
            0 <= i <= num_seeds <= 4,
            i > 0 ==> last == seed_chain(base, (i - 1) as nat),
            i == 0 ==> last == base,
            forall|k: int| 0 <= k < i ==> out@[k] == seed_chain(base, k as nat),
            forall|k: int| i <= k < 4 ==> out@[k] == 0,
        decreases num_seeds - i,
    {
        let next = last ^ ENTROPY ^ (i as u64);
        proof {
            if i == 0 {
                assert(next == base ^ ENTROPY) by (bit_vector)
                    requires next == last ^ 0x5fd8_9eda_3130_256du64 ^ 0u64, last == base;
            }
        }
        out[i] = next;
        last = next;
        i = i + 1;
    }
    out
}

/// The base of the seed chain for a user seed: the seed itself, or for a zero
/// seed the clock mixed with a constant, so that its streams differ
/// from run to run.
pub fn chain_base(init_seed: u64) -> (r: u64)
    ensures
        init_seed != 0 ==> r == init_seed,
{
    if init_seed == 0 {
        timestamp_counter() ^ ZERO_SEED_MIX
    } else {
        init_seed
    }
}

/// Derives `num_seeds` sub-seeds from a user seed (see `chain_base`).
pub fn generate_seeds(init_seed: usize, num_seeds: usize) -> (r: Seeds)
    requires
        1 <= num_seeds <= 4,
    ensures
        init_seed != 0 ==> r.holds(seeds_of(init_seed as u64, num_seeds as nat)),
        exists|base: u64| r.holds(seeds_of(base, num_seeds as nat)),
{
    let base = chain_base(init_seed as u64);
    let s = seeds_from_base(base, num_seeds);
    Seeds {
        state_w: s[0] as usize,
        state_x: s[1] as usize,
        state_y: s[2] as usize,
        state_z: s[3] as usize,
    }
}

} // verus!
