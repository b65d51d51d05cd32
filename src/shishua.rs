//! ShiShua: a generator over four 256-bit states, each held here as four 64-bit
//! lanes. Its lane operations (add, shift, xor, and a fixed permutation of the
//! 32-bit halves) are written out on the lanes.
use vstd::prelude::*;
use crate::generators::GeneratorTrait;
use crate::seed::{chain_base, seeds_from_base, seeds_of};

verus! {

/// Four 64-bit lanes.
#[derive(Debug, Clone, Copy, PartialEq, Eq, Structural)]
pub struct Lanes {
    pub l0: u64,
    pub l1: u64,
    pub l2: u64,
    pub l3: u64,
}

/// The fractional digits of the golden ratio that seed the state.
pub const PHI: [u64; 16] = [
    0x9E37_79B9_7F4A_7C15, 0xF39C_C060_5CED_C834, 0x1082_276B_F3A2_7251, 0xF86C_6A11_D0C1_8E95,
    0x2767_F0B1_53D2_7B7F, 0x0347_045B_5BF1_827F, 0x0188_6F09_2840_3002, 0xC1D6_4BA4_0F33_5E36,
    0xF06A_D7AE_9717_877E, 0x8583_9D6E_FFBD_7DC6, 0x64D3_25D1_C537_1682, 0xCADD_0CCC_FDFF_BBE1,
    0x626E_33B8_D04B_4331, 0xBBF7_3C79_0D94_F79D, 0x471C_4AB3_ED3D_82A5, 0xFEC5_0770_5E4A_E6E5,
];

/// How many times `new` runs four rounds and feeds the output back into the state.
pub const STEPS: usize = 5;

pub open spec fn lanes_add(a: Lanes, b: Lanes) -> Lanes {
    Lanes {
        l0: a.l0.wrapping_add(b.l0),
        l1: a.l1.wrapping_add(b.l1),
        l2: a.l2.wrapping_add(b.l2),
        l3: a.l3.wrapping_add(b.l3),
    }
}

pub open spec fn lanes_xor(a: Lanes, b: Lanes) -> Lanes {
    Lanes { l0: a.l0 ^ b.l0, l1: a.l1 ^ b.l1, l2: a.l2 ^ b.l2, l3: a.l3 ^ b.l3 }
}

pub open spec fn lanes_shr(a: Lanes, k: u64) -> Lanes {
    Lanes { l0: a.l0 >> k, l1: a.l1 >> k, l2: a.l2 >> k, l3: a.l3 >> k }
}

/// The first permutation of 32-bit halves: lane `k` takes the high half of lane
/// `k + 2` and the low half of lane `k + 1` (indices modulo 4).
pub open spec fn shuffle_a(v: Lanes) -> Lanes {
    Lanes {
        l0: (v.l2 >> 32u64) | (v.l1 << 32u64),
        l1: (v.l3 >> 32u64) | (v.l2 << 32u64),
        l2: (v.l0 >> 32u64) | (v.l3 << 32u64),
        l3: (v.l1 >> 32u64) | (v.l0 << 32u64),
    }
}

/// The second permutation: lane `k` takes the high half of lane `k + 3` and the
/// low half of lane `k + 2`.
pub open spec fn shuffle_b(v: Lanes) -> Lanes {
    Lanes {
        l0: (v.l3 >> 32u64) | (v.l2 << 32u64),
        l1: (v.l0 >> 32u64) | (v.l3 << 32u64),
        l2: (v.l1 >> 32u64) | (v.l0 << 32u64),
        l3: (v.l2 >> 32u64) | (v.l1 << 32u64),
    }
}

fn add_lanes(a: Lanes, b: Lanes) -> (r: Lanes)
    ensures
        r == lanes_add(a, b),
{
    Lanes {
        l0: a.l0.wrapping_add(b.l0),
        l1: a.l1.wrapping_add(b.l1),
        l2: a.l2.wrapping_add(b.l2),
        l3: a.l3.wrapping_add(b.l3),
    }
}

fn xor_lanes(a: Lanes, b: Lanes) -> (r: Lanes)
    ensures
        r == lanes_xor(a, b),
{
    Lanes { l0: a.l0 ^ b.l0, l1: a.l1 ^ b.l1, l2: a.l2 ^ b.l2, l3: a.l3 ^ b.l3 }
}

fn shr_lanes(a: Lanes, k: u64) -> (r: Lanes)
    requires
        k < 64,
    ensures
        r == lanes_shr(a, k),
{
    Lanes { l0: a.l0 >> k, l1: a.l1 >> k, l2: a.l2 >> k, l3: a.l3 >> k }
}

fn shuf_a(v: Lanes) -> (r: Lanes)
    ensures
        r == shuffle_a(v),
{
    Lanes {
        l0: (v.l2 >> 32u64) | (v.l1 << 32u64),
        l1: (v.l3 >> 32u64) | (v.l2 << 32u64),
        l2: (v.l0 >> 32u64) | (v.l3 << 32u64),
        l3: (v.l1 >> 32u64) | (v.l0 << 32u64),
    }
}

fn shuf_b(v: Lanes) -> (r: Lanes)
    ensures
        r == shuffle_b(v),
{
    Lanes {
        l0: (v.l3 >> 32u64) | (v.l2 << 32u64),
        l1: (v.l0 >> 32u64) | (v.l3 << 32u64),
        l2: (v.l1 >> 32u64) | (v.l0 << 32u64),
        l3: (v.l2 >> 32u64) | (v.l1 << 32u64),
    }
}

/// The lane `i` (taken modulo 4).
pub open spec fn lane(v: Lanes, i: usize) -> u64 {
    if i % 4 == 0 {
        v.l0
    } else if i % 4 == 1 {
        v.l1
    } else if i % 4 == 2 {
        v.l2
    } else {
        v.l3
    }
}

/// The ShiShua state: four state vectors, the four output vectors of the last
/// round, the round counter, and where the next value is read from the output.
#[derive(Debug, Clone, Copy, PartialEq, Eq, Structural)]
pub struct ShiShua {
    pub s0: Lanes,
    pub s1: Lanes,
    pub s2: Lanes,
    pub s3: Lanes,
    pub o0: Lanes,
    pub o1: Lanes,
    pub o2: Lanes,
    pub o3: Lanes,
    pub counter: Lanes,
    pub buffer_idx: usize,
    pub arr_idx: usize,
}

/// The per-lane increments of the round counter.
pub open spec fn increment() -> Lanes {
    Lanes { l0: 1, l1: 3, l2: 5, l3: 7 }
}

/// One round: the counter is added to the second and fourth state, each state
/// becomes its half-permutation plus itself shifted, and the output is mixed
/// from both.
pub open spec fn round_spec(g: ShiShua) -> ShiShua {
    let st1 = lanes_add(g.s1, g.counter);
    let st3 = lanes_add(g.s3, g.counter);
    let u0 = lanes_shr(g.s0, 1);
    let u1 = lanes_shr(st1, 3);
    let u2 = lanes_shr(g.s2, 1);
    let u3 = lanes_shr(st3, 3);
    let t0 = shuffle_a(g.s0);
    let t1 = shuffle_b(st1);
    let t2 = shuffle_a(g.s2);
    let t3 = shuffle_b(st3);
    let n0 = lanes_add(t0, u0);
    let n1 = lanes_add(t1, u1);
    let n2 = lanes_add(t2, u2);
    let n3 = lanes_add(t3, u3);
    ShiShua {
        s0: n0,
        s1: n1,
        s2: n2,
        s3: n3,
        o0: lanes_xor(u0, t1),
        o1: lanes_xor(u2, t3),
        o2: lanes_xor(n0, n3),
        o3: lanes_xor(n2, n1),
        counter: lanes_add(g.counter, increment()),
        ..g
    }
}

/// Four rounds, then the output fed back into the state in reverse order.
pub open spec fn warm_step(g: ShiShua) -> ShiShua {
    let r = round_spec(round_spec(round_spec(round_spec(g))));
    ShiShua { s0: r.o3, s1: r.o2, s2: r.o1, s3: r.o0, ..r }
}

/// `k` warm-up steps.
pub open spec fn warm(g: ShiShua, k: nat) -> ShiShua
    decreases k,
{
    if k == 0 {
        g
    } else {
        warm_step(warm(g, (k - 1) as nat))
    }
}

/// The state before the warm-up, from the four sub-seeds of a chain base.
pub open spec fn initial(base: u64) -> ShiShua {
    let s = seeds_of(base, 4);
    let zero = Lanes { l0: 0, l1: 0, l2: 0, l3: 0 };
    ShiShua {
        s0: Lanes { l0: PHI[3], l1: PHI[2] ^ s.1, l2: PHI[1], l3: PHI[0] ^ s.0 },
        s1: Lanes { l0: PHI[7], l1: PHI[6] ^ s.3, l2: PHI[5], l3: PHI[4] ^ s.2 },
        s2: Lanes { l0: PHI[11], l1: PHI[10] ^ s.3, l2: PHI[9], l3: PHI[8] ^ s.2 },
        s3: Lanes { l0: PHI[15], l1: PHI[14] ^ s.1, l2: PHI[13], l3: PHI[12] ^ s.0 },
        o0: zero,
        o1: zero,
        o2: zero,
        o3: zero,
        counter: zero,
        buffer_idx: 0,
        arr_idx: 0,
    }
}

/// The output vector `i` (taken modulo 4).
pub open spec fn output(g: ShiShua, i: usize) -> Lanes {
    if i % 4 == 0 {
        g.o0
    } else if i % 4 == 1 {
        g.o1
    } else if i % 4 == 2 {
        g.o2
    } else {
        g.o3
    }
}

impl ShiShua {
    /// Runs one round.
    pub fn round(&mut self)
        ensures
            *final(self) == round_spec(*old(self)),
    {
        let st1 = add_lanes(self.s1, self.counter);
        let st3 = add_lanes(self.s3, self.counter);
        let u0 = shr_lanes(self.s0, 1);
        let u1 = shr_lanes(st1, 3);
        let u2 = shr_lanes(self.s2, 1);
        let u3 = shr_lanes(st3, 3);
        let t0 = shuf_a(self.s0);
        let t1 = shuf_b(st1);
        let t2 = shuf_a(self.s2);
        let t3 = shuf_b(st3);
        let n0 = add_lanes(t0, u0);
        let n1 = add_lanes(t1, u1);
        let n2 = add_lanes(t2, u2);
        let n3 = add_lanes(t3, u3);
        self.o0 = xor_lanes(u0, t1);
        self.o1 = xor_lanes(u2, t3);
        self.o2 = xor_lanes(n0, n3);
        self.o3 = xor_lanes(n2, n1);
        self.counter = add_lanes(self.counter, Lanes { l0: 1, l1: 3, l2: 5, l3: 7 });
        self.s0 = n0;
        self.s1 = n1;
        self.s2 = n2;
        self.s3 = n3;
    }

    /// The generator seeded from a chain base: the initial state after `STEPS`
    /// warm-up steps.
    pub fn from_chain_base(base: u64) -> (r: Self)
        ensures
            r == Self::from_base(base),
    {
        let s = seeds_from_base(base, 4);
        let phi = PHI;
        let zero = Lanes { l0: 0, l1: 0, l2: 0, l3: 0 };
        let mut g = ShiShua {
            s0: Lanes { l0: phi[3], l1: phi[2] ^ s[1], l2: phi[1], l3: phi[0] ^ s[0] },
            s1: Lanes { l0: phi[7], l1: phi[6] ^ s[3], l2: phi[5], l3: phi[4] ^ s[2] },
            s2: Lanes { l0: phi[11], l1: phi[10] ^ s[3], l2: phi[9], l3: phi[8] ^ s[2] },
            s3: Lanes { l0: phi[15], l1: phi[14] ^ s[1], l2: phi[13], l3: phi[12] ^ s[0] },
            o0: zero,
            o1: zero,
            o2: zero,
            o3: zero,
            counter: zero,
            buffer_idx: 0,
            arr_idx: 0,
        };
        assert(g == initial(base));
        let mut k: usize = 0;
        while k < STEPS
            invariant
                k <= STEPS,
                g == warm(initial(base), k as nat),
            decreases STEPS - k,
        {
            g.round();
            g.round();
            g.round();
            g.round();
            let o = g;
            g.s0 = o.o3;
            g.s1 = o.o2;
            g.s2 = o.o1;
            g.s3 = o.o0;
            k = k + 1;
        }
        g
    }

    /// The generator seeded from `seed` (see `chain_base`).
    pub fn new(seed: usize) -> (r: Self)
        ensures
            seed != 0 ==> r == Self::from_base(seed as u64),
            exists|b: u64| r == Self::from_base(b),
    {
        let base = chain_base(seed as u64);
        Self::from_chain_base(base)
    }
}

/// Where the next value is read: a read index that reaches 3 moves on to the next
/// output vector, and after the third vector a new round is run.
pub open spec fn advance(g: ShiShua) -> ShiShua {
    let moved = if g.buffer_idx % 3 == 0 {
        ShiShua { buffer_idx: 0, arr_idx: g.arr_idx.wrapping_add(1), ..g }
    } else {
        g
    };
    if moved.arr_idx % 3 == 0 && moved.buffer_idx % 3 == 0 {
        round_spec(ShiShua { buffer_idx: 0, arr_idx: 0, ..moved })
    } else {
        moved
    }
}

impl GeneratorTrait for ShiShua {
    open spec fn step(self) -> (Self, u64) {
        let a = advance(self);
        (
            ShiShua { buffer_idx: a.buffer_idx.wrapping_add(1), ..a },
            lane(output(a, a.arr_idx), a.buffer_idx),
        )
    }

    open spec fn from_base(base: u64) -> Self {
        warm(initial(base), STEPS as nat)
    }

    fn rand(&mut self) -> (r: usize) {
        if self.buffer_idx % 3 == 0 {
            self.buffer_idx = 0;
            self.arr_idx = self.arr_idx.wrapping_add(1);
        }
        if self.arr_idx % 3 == 0 && self.buffer_idx % 3 == 0 {
            self.buffer_idx = 0;
            self.arr_idx = 0;
            self.round();
        }
        let v = if self.arr_idx % 4 == 0 {
            self.o0
        } else if self.arr_idx % 4 == 1 {
            self.o1
        } else if self.arr_idx % 4 == 2 {
            self.o2
        } else {
            self.o3
        };
        let out = if self.buffer_idx % 4 == 0 {
            v.l0
        } else if self.buffer_idx % 4 == 1 {
            v.l1
        } else if self.buffer_idx % 4 == 2 {
            v.l2
        } else {
            v.l3
        };
        self.buffer_idx = self.buffer_idx.wrapping_add(1);
        out as usize
    }

    fn set_seed(&mut self, seed: usize) {
        *self = Self::new(seed);
    }
}

} // verus!
