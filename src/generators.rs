//! The pseudo-random number generators. Each one is a small state machine: its
//! `step` says what the next state is and which 64-bit value it hands out.
use vstd::prelude::*;
use crate::seed::{chain_base, seeds_from_base, seeds_of};

verus! {

/// Rotation of a 64-bit value to the left by `k` bits.
pub open spec fn rotl(x: u64, k: u64) -> u64 {
    (x << k) | (x >> (64u64 - k) as u64)
}

/// Common surface of the generators.
pub trait GeneratorTrait: Sized {
    /// The next state and the value handed out by one draw.
    spec fn step(self) -> (Self, u64);

    /// The state that a chain base (see `chain_base`) gives.
    spec fn from_base(base: u64) -> Self;

    /// Draws the next value.
    fn rand(&mut self) -> (r: usize)
        ensures
            *final(self) == old(self).step().0,
            r == old(self).step().1 as usize,
    ;

    /// Reseeds the generator; a zero seed draws its base from the clock.
    fn set_seed(&mut self, seed: usize)
        ensures
            seed != 0 ==> *final(self) == Self::from_base(seed as u64),
            exists|b: u64| *final(self) == Self::from_base(b),
    ;
}

/// Xorshift64: three shift-xor rounds on one word.
#[derive(Debug, Clone, Copy, PartialEq, Eq, Structural)]
pub struct Xorshift64 {
    pub state: u64,
}

/// SplitMix64: a Weyl sequence passed through a mixing function.
#[derive(Debug, Clone, Copy, PartialEq, Eq, Structural)]
pub struct SplitMix64 {
    pub state: u64,
}

/// RomuDuoJr: two words, a multiply and a rotate.
#[derive(Debug, Clone, Copy, PartialEq, Eq, Structural)]
pub struct RomuDuoJr {
    pub state_x: u64,
    pub state_y: u64,
}

/// RomuTrio: three words, a multiply and two rotates.
#[derive(Debug, Clone, Copy, PartialEq, Eq, Structural)]
pub struct RomuTrio {
    pub state_x: u64,
    pub state_y: u64,
    pub state_z: u64,
}

/// Xoroshiro128**.
#[derive(Debug, Clone, Copy, PartialEq, Eq, Structural)]
pub struct XorShiro128ss {
    pub state_x: u64,
    pub state_y: u64,
}

/// Xoshiro256**.
#[derive(Debug, Clone, Copy, PartialEq, Eq, Structural)]
pub struct XorShiro256ss {
    pub state_w: u64,
    pub state_x: u64,
    pub state_y: u64,
    pub state_z: u64,
}

/// Lehmer64: a 128-bit multiplicative congruential generator.
#[derive(Debug, Clone, Copy, PartialEq, Eq, Structural)]
pub struct Lehmer64 {
    pub state: u128,
}

/// Wyhash64: a Weyl sequence passed through 128-bit multiply-fold rounds.
#[derive(Debug, Clone, Copy, PartialEq, Eq, Structural)]
pub struct Wyhash64 {
    pub state: u64,
}

pub const ROMU_MUL: u64 = 15_241_094_284_759_029_579;
pub const SPLITMIX_INC: u64 = 0x9e37_79b9_7f4a_7c15;
pub const SPLITMIX_MUL1: u64 = 0xbf58_476d_1ce4_e5b9;
pub const SPLITMIX_MUL2: u64 = 0x94d0_49bb_1331_11eb;
pub const LEHMER_MUL: u128 = 0xda94_2042_e4dd_58b5;
pub const WYHASH_INC: u64 = 0x60be_e2be_e120_fc15;
pub const WYHASH_MUL1: u128 = 0xa3b1_9535_4a39_b70d;
pub const WYHASH_MUL2: u128 = 0x1b03_7387_12fa_d5c9;

impl GeneratorTrait for Xorshift64 {
    open spec fn step(self) -> (Self, u64) {
        let s1 = self.state ^ (self.state << 13u64);
        let s2 = s1 ^ (s1 >> 17u64);
        let s3 = s2 ^ (s2 << 43u64);
        (Xorshift64 { state: s3 }, self.state)
    }

    open spec fn from_base(base: u64) -> Self {
        Xorshift64 { state: seeds_of(base, 1).0 }
    }

    fn rand(&mut self) -> (r: usize) {
        let val = self.state;
        self.state = self.state ^ (self.state << 13u64);
        self.state = self.state ^ (self.state >> 17u64);
        self.state = self.state ^ (self.state << 43u64);
        val as usize
    }

    fn set_seed(&mut self, seed: usize) {
        *self = Self::new(seed);
    }
}

impl Xorshift64 {
    /// The generator seeded from `seed` (see `chain_base`).
    pub fn new(seed: usize) -> (r: Self)
        ensures
            seed != 0 ==> r == Self::from_base(seed as u64),
            exists|b: u64| r == Self::from_base(b),
    {
        let base = chain_base(seed as u64);
        Self::from_chain_base(base)
    }

    /// The generator seeded from a chain base.
    pub fn from_chain_base(base: u64) -> (r: Self)
        ensures
            r == Self::from_base(base),
    {
        let s = seeds_from_base(base, 1);
        Xorshift64 { state: s[0] }
    }
}

impl GeneratorTrait for SplitMix64 {
    open spec fn step(self) -> (Self, u64) {
        let st = self.state.wrapping_add(SPLITMIX_INC);
        let x1 = (st ^ (st >> 30u64)).wrapping_mul(SPLITMIX_MUL1);
        let x2 = (x1 ^ (x1 >> 27u64)).wrapping_mul(SPLITMIX_MUL2);
        (SplitMix64 { state: st }, x2 ^ (x2 >> 31u64))
    }

    open spec fn from_base(base: u64) -> Self {
        SplitMix64 { state: seeds_of(base, 1).0 }
    }

    fn rand(&mut self) -> (r: usize) {
        self.state = self.state.wrapping_add(SPLITMIX_INC);
        let mut x = self.state;
        x = (x ^ (x >> 30u64)).wrapping_mul(SPLITMIX_MUL1);
        x = (x ^ (x >> 27u64)).wrapping_mul(SPLITMIX_MUL2);
        (x ^ (x >> 31u64)) as usize
    }

    fn set_seed(&mut self, seed: usize) {
        *self = Self::new(seed);
    }
}

impl SplitMix64 {
    /// The generator seeded from `seed` (see `chain_base`).
    pub fn new(seed: usize) -> (r: Self)
        ensures
            seed != 0 ==> r == Self::from_base(seed as u64),
            exists|b: u64| r == Self::from_base(b),
    {
        let base = chain_base(seed as u64);
        Self::from_chain_base(base)
    }

    /// The generator seeded from a chain base.
    pub fn from_chain_base(base: u64) -> (r: Self)
        ensures
            r == Self::from_base(base),
    {
        let s = seeds_from_base(base, 1);
        SplitMix64 { state: s[0] }
    }
}

impl GeneratorTrait for RomuDuoJr {
    open spec fn step(self) -> (Self, u64) {
        let xp = self.state_x;
        let d = self.state_y.wrapping_sub(xp);
        (RomuDuoJr { state_x: ROMU_MUL.wrapping_mul(self.state_y), state_y: rotl(d, 27) }, xp)
    }

    open spec fn from_base(base: u64) -> Self {
        RomuDuoJr { state_x: seeds_of(base, 2).0, state_y: seeds_of(base, 2).1 }
    }

    fn rand(&mut self) -> (r: usize) {
        let xp = self.state_x;
        self.state_x = ROMU_MUL.wrapping_mul(self.state_y);
        let d = self.state_y.wrapping_sub(xp);
        self.state_y = (d << 27u64) | (d >> 37u64);
        xp as usize
    }

    fn set_seed(&mut self, seed: usize) {
        *self = Self::new(seed);
    }
}

impl RomuDuoJr {
    /// The generator seeded from `seed` (see `chain_base`).
    pub fn new(seed: usize) -> (r: Self)
        ensures
            seed != 0 ==> r == Self::from_base(seed as u64),
            exists|b: u64| r == Self::from_base(b),
    {
        let base = chain_base(seed as u64);
        Self::from_chain_base(base)
    }

    /// The generator seeded from a chain base.
    pub fn from_chain_base(base: u64) -> (r: Self)
        ensures
            r == Self::from_base(base),
    {
        let s = seeds_from_base(base, 2);
        RomuDuoJr { state_x: s[0], state_y: s[1] }
    }
}

impl GeneratorTrait for RomuTrio {
    open spec fn step(self) -> (Self, u64) {
        let xp = self.state_x;
        let yp = self.state_y;
        let zp = self.state_z;
        (
            RomuTrio {
                state_x: ROMU_MUL.wrapping_mul(zp),
                state_y: rotl(yp.wrapping_sub(xp), 12),
                state_z: rotl(zp.wrapping_sub(yp), 44),
            },
            xp,
        )
    }

    open spec fn from_base(base: u64) -> Self {
        RomuTrio {
            state_x: seeds_of(base, 3).0,
            state_y: seeds_of(base, 3).1,
            state_z: seeds_of(base, 3).2,
        }
    }

    fn rand(&mut self) -> (r: usize) {
        let xp = self.state_x;
        let yp = self.state_y;
        let zp = self.state_z;
        self.state_x = ROMU_MUL.wrapping_mul(zp);
        let dy = yp.wrapping_sub(xp);
        self.state_y = (dy << 12u64) | (dy >> 52u64);
        let dz = zp.wrapping_sub(yp);
        self.state_z = (dz << 44u64) | (dz >> 20u64);
        xp as usize
    }

    fn set_seed(&mut self, seed: usize) {
        *self = Self::new(seed);
    }
}

impl RomuTrio {
    /// The generator seeded from `seed` (see `chain_base`).
    pub fn new(seed: usize) -> (r: Self)
        ensures
            seed != 0 ==> r == Self::from_base(seed as u64),
            exists|b: u64| r == Self::from_base(b),
    {
        let base = chain_base(seed as u64);
        Self::from_chain_base(base)
    }

    /// The generator seeded from a chain base.
    pub fn from_chain_base(base: u64) -> (r: Self)
        ensures
            r == Self::from_base(base),
    {
        let s = seeds_from_base(base, 3);
        RomuTrio { state_x: s[0], state_y: s[1], state_z: s[2] }
    }
}

impl GeneratorTrait for XorShiro128ss {
    open spec fn step(self) -> (Self, u64) {
        let s0 = self.state_x;
        let s1 = self.state_y ^ s0;
        let res = rotl(s0.wrapping_mul(5), 7).wrapping_mul(9);
        (
            XorShiro128ss {
                state_x: rotl(s0, 24) ^ s1 ^ (s1 << 16u64),
                state_y: rotl(s1, 37),
            },
            res,
        )
    }

    open spec fn from_base(base: u64) -> Self {
        XorShiro128ss { state_x: seeds_of(base, 2).0, state_y: seeds_of(base, 2).1 }
    }

    fn rand(&mut self) -> (r: usize) {
        let s0 = self.state_x;
        let s1 = self.state_y ^ s0;
        let m = s0.wrapping_mul(5);
        let res = ((m << 7u64) | (m >> 57u64)).wrapping_mul(9);
        self.state_x = ((s0 << 24u64) | (s0 >> 40u64)) ^ s1 ^ (s1 << 16u64);
        self.state_y = (s1 << 37u64) | (s1 >> 27u64);
        res as usize
    }

    fn set_seed(&mut self, seed: usize) {
        *self = Self::new(seed);
    }
}

impl XorShiro128ss {
    /// The generator seeded from `seed` (see `chain_base`).
    pub fn new(seed: usize) -> (r: Self)
        ensures
            seed != 0 ==> r == Self::from_base(seed as u64),
            exists|b: u64| r == Self::from_base(b),
    {
        let base = chain_base(seed as u64);
        Self::from_chain_base(base)
    }

    /// The generator seeded from a chain base.
    pub fn from_chain_base(base: u64) -> (r: Self)
        ensures
            r == Self::from_base(base),
    {
        let s = seeds_from_base(base, 2);
        XorShiro128ss { state_x: s[0], state_y: s[1] }
    }
}

/// Rotation of a 64-bit value to the left by `k` bits, for `0 < k < 64`.
pub fn rol64(x: u64, k: u64) -> (r: u64)
    requires
        0 < k < 64,
    ensures
        r == rotl(x, k),
{
    (x << k) | (x >> (64 - k))
}

impl GeneratorTrait for XorShiro256ss {
    open spec fn step(self) -> (Self, u64) {
        let res = rotl(self.state_x.wrapping_mul(5), 7).wrapping_mul(9);
        let t = self.state_y << 17u64;
        let y1 = self.state_y ^ self.state_w;
        let z1 = self.state_z ^ self.state_x;
        let x1 = self.state_x ^ y1;
        let w1 = self.state_w ^ z1;
        let y2 = y1 ^ t;
        (XorShiro256ss { state_w: w1, state_x: x1, state_y: y2, state_z: rotl(z1, 45) }, res)
    }

    open spec fn from_base(base: u64) -> Self {
        XorShiro256ss {
            state_w: seeds_of(base, 4).0,
            state_x: seeds_of(base, 4).1,
            state_y: seeds_of(base, 4).2,
            state_z: seeds_of(base, 4).3,
        }
    }

    fn rand(&mut self) -> (r: usize) {
        let res = rol64(self.state_x.wrapping_mul(5), 7).wrapping_mul(9);
        let t = self.state_y << 17u64;
        self.state_y = self.state_y ^ self.state_w;
        self.state_z = self.state_z ^ self.state_x;
        self.state_x = self.state_x ^ self.state_y;
        self.state_w = self.state_w ^ self.state_z;
        self.state_y = self.state_y ^ t;
        self.state_z = rol64(self.state_z, 45);
        res as usize
    }

    fn set_seed(&mut self, seed: usize) {
        *self = Self::new(seed);
    }
}

impl XorShiro256ss {
    /// The generator seeded from `seed` (see `chain_base`).
    pub fn new(seed: usize) -> (r: Self)
        ensures
            seed != 0 ==> r == Self::from_base(seed as u64),
            exists|b: u64| r == Self::from_base(b),
    {
        let base = chain_base(seed as u64);
        Self::from_chain_base(base)
    }

    /// The generator seeded from a chain base.
    pub fn from_chain_base(base: u64) -> (r: Self)
        ensures
            r == Self::from_base(base),
    {
        let s = seeds_from_base(base, 4);
        XorShiro256ss { state_w: s[0], state_x: s[1], state_y: s[2], state_z: s[3] }
    }
}

impl GeneratorTrait for Lehmer64 {
    open spec fn step(self) -> (Self, u64) {
        let st = self.state.wrapping_mul(LEHMER_MUL);
        (Lehmer64 { state: st }, (st >> 64u128) as u64)
    }

    open spec fn from_base(base: u64) -> Self {
        Lehmer64 { state: seeds_of(base, 1).0 as u128 }
    }

    fn rand(&mut self) -> (r: usize) {
        self.state = self.state.wrapping_mul(LEHMER_MUL);
        ((self.state >> 64u128) as u64) as usize
    }

    fn set_seed(&mut self, seed: usize) {
        *self = Self::new(seed);
    }
}

impl Lehmer64 {
    /// The generator seeded from `seed` (see `chain_base`).
    pub fn new(seed: usize) -> (r: Self)
        ensures
            seed != 0 ==> r == Self::from_base(seed as u64),
            exists|b: u64| r == Self::from_base(b),
    {
        let base = chain_base(seed as u64);
        Self::from_chain_base(base)
    }

    /// The generator seeded from a chain base.
    pub fn from_chain_base(base: u64) -> (r: Self)
        ensures
            r == Self::from_base(base),
    {
        let s = seeds_from_base(base, 1);
        Lehmer64 { state: s[0] as u128 }
    }
}

impl GeneratorTrait for Wyhash64 {
    open spec fn step(self) -> (Self, u64) {
        let st = self.state.wrapping_add(WYHASH_INC);
        let t1 = (st as u128).wrapping_mul(WYHASH_MUL1);
        let m1 = (t1 >> 64u128) ^ t1;
        let t2 = m1.wrapping_mul(WYHASH_MUL2);
        (Wyhash64 { state: st }, ((t2 >> 64u128) ^ t2) as u64)
    }

    open spec fn from_base(base: u64) -> Self {
        Wyhash64 { state: seeds_of(base, 1).0 }
    }

    fn rand(&mut self) -> (r: usize) {
        self.state = self.state.wrapping_add(WYHASH_INC);
        let t1 = (self.state as u128).wrapping_mul(WYHASH_MUL1);
        let m1 = (t1 >> 64u128) ^ t1;
        let t2 = m1.wrapping_mul(WYHASH_MUL2);
        (((t2 >> 64u128) ^ t2) as u64) as usize
    }

    fn set_seed(&mut self, seed: usize) {
        *self = Self::new(seed);
    }
}

impl Wyhash64 {
    /// The generator seeded from `seed` (see `chain_base`).
    pub fn new(seed: usize) -> (r: Self)
        ensures
            seed != 0 ==> r == Self::from_base(seed as u64),
            exists|b: u64| r == Self::from_base(b),
    {
        let base = chain_base(seed as u64);
        Self::from_chain_base(base)
    }

    /// The generator seeded from a chain base.
    pub fn from_chain_base(base: u64) -> (r: Self)
        ensures
            r == Self::from_base(base),
    {
        let s = seeds_from_base(base, 1);
        Wyhash64 { state: s[0] }
    }
}

} // verus!
