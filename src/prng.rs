//! One call surface over the generators, and the helpers that the mutators draw
//! their randomness from.
use vstd::prelude::*;
use crate::seed::chain_base;
use crate::shishua::ShiShua;
use crate::generators::{
    GeneratorTrait, Lehmer64, RomuDuoJr, RomuTrio, SplitMix64, Wyhash64, XorShiro128ss,
    XorShiro256ss, Xorshift64,
};

verus! {

broadcast use vstd::seq_lib::group_to_multiset_ensures;

/// The printable and delimiter characters that `rand_char` favours:
/// `!*'();:@&=+$,/?%#[]012Az-` and backtick, `~.`, DEL and NUL.
pub const SPECIAL_CHAR: [u8; 30] = [
    0x21, 0x2a, 0x27, 0x28, 0x29, 0x3b, 0x3a, 0x40, 0x26, 0x3d,
    0x2b, 0x24, 0x2c, 0x2f, 0x3f, 0x25, 0x23, 0x5b, 0x5d, 0x30,
    0x31, 0x32, 0x41, 0x7a, 0x2d, 0x60, 0x7e, 0x2e, 0x7f, 0x00,
];

/// A generator of any of the supported kinds.
#[derive(Clone, Debug, PartialEq, Eq, Structural)]
pub enum Generator {
    Xorshift64(Xorshift64),
    RomuDuoJr(RomuDuoJr),
    RomuTrio(RomuTrio),
    SplitMix64(SplitMix64),
    XorShiro128ss(XorShiro128ss),
    XorShiro256ss(XorShiro256ss),
    Lehmer64(Lehmer64),
    Wyhash64(Wyhash64),
    ShiShua(ShiShua),
}

/// The names of the generator kinds, as a user selects them.
#[derive(Clone, Copy, Debug, PartialEq, Eq, Structural)]
pub enum Generators {
    Xorshift64,
    Romuduojr,
    Romutrio,
    Splitmix64,
    Xorshiro128ss,
    Xorshiro256ss,
    Lehmer64,
    Wyhash64,
    Shishua,
}

impl Generator {
    /// The next state and the value handed out by one draw.
    #[verifier::opaque]
    pub open spec fn step(self) -> (Generator, u64) {
        match self {
            Generator::Xorshift64(g) => (Generator::Xorshift64(g.step().0), g.step().1),
            Generator::RomuDuoJr(g) => (Generator::RomuDuoJr(g.step().0), g.step().1),
            Generator::RomuTrio(g) => (Generator::RomuTrio(g.step().0), g.step().1),
            Generator::SplitMix64(g) => (Generator::SplitMix64(g.step().0), g.step().1),
            Generator::XorShiro128ss(g) => (Generator::XorShiro128ss(g.step().0), g.step().1),
            Generator::XorShiro256ss(g) => (Generator::XorShiro256ss(g.step().0), g.step().1),
            Generator::Lehmer64(g) => (Generator::Lehmer64(g.step().0), g.step().1),
            Generator::Wyhash64(g) => (Generator::Wyhash64(g.step().0), g.step().1),
            Generator::ShiShua(g) => (Generator::ShiShua(g.step().0), g.step().1),
        }
    }

    /// The generator of the same kind, seeded from a chain base.
    pub open spec fn reseeded(self, base: u64) -> Generator {
        match self {
            Generator::Xorshift64(_) => Generator::Xorshift64(Xorshift64::from_base(base)),
            Generator::RomuDuoJr(_) => Generator::RomuDuoJr(RomuDuoJr::from_base(base)),
            Generator::RomuTrio(_) => Generator::RomuTrio(RomuTrio::from_base(base)),
            Generator::SplitMix64(_) => Generator::SplitMix64(SplitMix64::from_base(base)),
            Generator::XorShiro128ss(_) => Generator::XorShiro128ss(XorShiro128ss::from_base(base)),
            Generator::XorShiro256ss(_) => Generator::XorShiro256ss(XorShiro256ss::from_base(base)),
            Generator::Lehmer64(_) => Generator::Lehmer64(Lehmer64::from_base(base)),
            Generator::Wyhash64(_) => Generator::Wyhash64(Wyhash64::from_base(base)),
            Generator::ShiShua(_) => Generator::ShiShua(ShiShua::from_base(base)),
        }
    }

    /// Draws the next value.
    pub fn rand(&mut self) -> (r: usize)
        ensures
            *final(self) == old(self).step().0,
            r == old(self).step().1 as usize,
    {
        proof {
            reveal(Generator::step);
        }
        match self {
            Generator::Xorshift64(g) => g.rand(),
            Generator::RomuDuoJr(g) => g.rand(),
            Generator::RomuTrio(g) => g.rand(),
            Generator::SplitMix64(g) => g.rand(),
            Generator::XorShiro128ss(g) => g.rand(),
            Generator::XorShiro256ss(g) => g.rand(),
            Generator::Lehmer64(g) => g.rand(),
            Generator::Wyhash64(g) => g.rand(),
            Generator::ShiShua(g) => g.rand(),
        }
    }

    /// Reseeds the generator and keeps its kind; a zero seed draws its base from the clock.
    pub fn set_seed(&mut self, seed: usize)
        ensures
            seed != 0 ==> *final(self) == old(self).reseeded(seed as u64),
            exists|b: u64| *final(self) == old(self).reseeded(b),
    {
        let base = chain_base(seed as u64);
        let g = match self {
            Generator::Xorshift64(_) => Generator::Xorshift64(Xorshift64::from_chain_base(base)),
            Generator::RomuDuoJr(_) => Generator::RomuDuoJr(RomuDuoJr::from_chain_base(base)),
            Generator::RomuTrio(_) => Generator::RomuTrio(RomuTrio::from_chain_base(base)),
            Generator::SplitMix64(_) => Generator::SplitMix64(SplitMix64::from_chain_base(base)),
            Generator::XorShiro128ss(_) => Generator::XorShiro128ss(
                XorShiro128ss::from_chain_base(base),
            ),
            Generator::XorShiro256ss(_) => Generator::XorShiro256ss(
                XorShiro256ss::from_chain_base(base),
            ),
            Generator::Lehmer64(_) => Generator::Lehmer64(Lehmer64::from_chain_base(base)),
            Generator::Wyhash64(_) => Generator::Wyhash64(Wyhash64::from_chain_base(base)),
            Generator::ShiShua(_) => Generator::ShiShua(ShiShua::from_chain_base(base)),
        };
        assert(g == old(self).reseeded(base));
        *self = g;
    }
}

impl Generators {
    /// The generator of this kind, freshly seeded from the clock.
    pub fn generator(&self) -> (r: Generator)
        ensures
            exists|b: u64| r == Generator::spec_of_kind(*self, b),
    {
        let base = chain_base(0);
        let g = match self {
            Generators::Xorshift64 => Generator::Xorshift64(Xorshift64::from_chain_base(base)),
            Generators::Romuduojr => Generator::RomuDuoJr(RomuDuoJr::from_chain_base(base)),
            Generators::Romutrio => Generator::RomuTrio(RomuTrio::from_chain_base(base)),
            Generators::Splitmix64 => Generator::SplitMix64(SplitMix64::from_chain_base(base)),
            Generators::Xorshiro128ss => Generator::XorShiro128ss(
                XorShiro128ss::from_chain_base(base),
            ),
            Generators::Xorshiro256ss => Generator::XorShiro256ss(
                XorShiro256ss::from_chain_base(base),
            ),
            Generators::Lehmer64 => Generator::Lehmer64(Lehmer64::from_chain_base(base)),
            Generators::Wyhash64 => Generator::Wyhash64(Wyhash64::from_chain_base(base)),
            Generators::Shishua => Generator::ShiShua(ShiShua::from_chain_base(base)),
        };
        assert(g == Generator::spec_of_kind(*self, base));
        g
    }
}

impl Generator {
    /// The generator of kind `k` seeded from the chain base `b`.
    pub open spec fn spec_of_kind(k: Generators, b: u64) -> Generator {
        match k {
            Generators::Xorshift64 => Generator::Xorshift64(Xorshift64::from_base(b)),
            Generators::Romuduojr => Generator::RomuDuoJr(RomuDuoJr::from_base(b)),
            Generators::Romutrio => Generator::RomuTrio(RomuTrio::from_base(b)),
            Generators::Splitmix64 => Generator::SplitMix64(SplitMix64::from_base(b)),
            Generators::Xorshiro128ss => Generator::XorShiro128ss(XorShiro128ss::from_base(b)),
            Generators::Xorshiro256ss => Generator::XorShiro256ss(XorShiro256ss::from_base(b)),
            Generators::Lehmer64 => Generator::Lehmer64(Lehmer64::from_base(b)),
            Generators::Wyhash64 => Generator::Wyhash64(Wyhash64::from_base(b)),
            Generators::Shishua => Generator::ShiShua(ShiShua::from_base(b)),
        }
    }
}

/// A generator together with the flag that biases `rand_exp` towards small values.
#[derive(Clone, Debug)]
pub struct Rng {
    pub exponential: bool,
    pub generator: Generator,
}

impl Rng {
    /// The value that the next draw hands out.
    pub open spec fn draw(self) -> u64 {
        self.generator.step().1
    }

    /// The state after one draw.
    pub open spec fn next(self) -> Rng {
        Rng { exponential: self.exponential, generator: self.generator.step().0 }
    }

    /// Creates an `Rng` over `generator`, without the exponential bias.
    pub fn new(generator: Generator) -> (r: Self)
        ensures
            r.generator == generator,
            !r.exponential,
    {
        Rng { exponential: false, generator }
    }

    /// Enables or disables the exponential bias of `rand_exp`.
    pub fn set_rand_exp(self, exp_enabled: bool) -> (r: Self)
        ensures
            r.generator == self.generator,
            r.exponential == exp_enabled,
    {
        Rng { exponential: exp_enabled, generator: self.generator }
    }

    /// Reseeds the generator and keeps its kind.
    pub fn set_seed(&mut self, seed: usize)
        ensures
            final(self).exponential == old(self).exponential,
            seed != 0 ==> final(self).generator == old(self).generator.reseeded(seed as u64),
            exists|b: u64| final(self).generator == old(self).generator.reseeded(b),
    {
        self.generator.set_seed(seed);
    }

    /// Replaces the generator.
    pub fn set_generator(self, generator: Generator) -> (r: Self)
        ensures
            r.generator == generator,
            r.exponential == self.exponential,
    {
        Rng { exponential: self.exponential, generator }
    }

    /// Draws the next value of the generator.
    pub fn rand(&mut self) -> (r: usize)
        ensures
            *final(self) == old(self).next(),
            r == old(self).draw() as usize,
    {
        self.generator.rand()
    }

    /// A value in `[min, max)`, or `min` when the two are equal.
    pub fn rand_range(&mut self, min: usize, max: usize) -> (r: usize)
        requires
            min <= max,
        ensures
            min == max ==> r == min && *final(self) == *old(self),
            min < max ==> r == in_range(min, max, old(self).draw())
                && *final(self) == old(self).next(),
            min <= r,
            min < max ==> r < max,
    {
        if min == max {
            return min;
        }
        let v = self.rand();
        min + v % (max - min)
    }

    /// Like `rand_range`, but when the exponential flag is set it draws, half of the
    /// time, a second bound first, which favours small values.
    pub fn rand_exp(&mut self, min: usize, max: usize) -> (r: usize)
        requires
            min <= max,
        ensures
            min <= r,
            min < max ==> r < max,
            min == max ==> r == min,
            !old(self).exponential && min < max ==> r == in_range(min, max, old(self).draw())
                && *final(self) == old(self).next(),
            !old(self).exponential && min == max ==> *final(self) == *old(self),
            final(self).exponential == old(self).exponential,
    {
        if !self.exponential {
            return self.rand_range(min, max);
        }
        if self.bool() {
            self.rand_range(min, max)
        } else {
            let x = self.rand_range(min, max);
            self.rand_range(min, x)
        }
    }

    /// Two distinct values in `[0, max)`, the smaller first; `(0, 1)` when `max <= 1`.
    pub fn rand_two(&mut self, max: usize) -> (r: (usize, usize))
        ensures
            max <= 1 ==> r == (0usize, 1usize) && *final(self) == *old(self),
            max >= 2 ==> r.0 < r.1 < max,
            final(self).exponential == old(self).exponential,
    {
        if max <= 1 {
            return (0, 1);
        }
        let mut val_a = self.rand() % max;
        let mut val_b = self.rand() % max;
        let mut tries: usize = 0;
        while val_a == val_b && tries < REDRAW_LIMIT
            invariant
                val_a < max,
                val_b < max,
                tries <= REDRAW_LIMIT,
                self.exponential == old(self).exponential,
            decreases REDRAW_LIMIT - tries,
        {
            val_a = self.rand() % max;
            val_b = self.rand() % max;
            tries = tries + 1;
        }
        if val_a == val_b {
            // The generator kept repeating itself: take the next value up instead.
            val_b = if val_a + 1 < max { val_a + 1 } else { 0 };
        }
        if val_a > val_b {
            (val_b, val_a)
        } else {
            (val_a, val_b)
        }
    }

    /// A random byte in `[0, 255)`.
    pub fn rand_byte(&mut self) -> (r: u8)
        ensures
            r == (old(self).draw() as usize % 255) as u8,
            r < 255,
            *final(self) == old(self).next(),
    {
        (self.rand() % 255) as u8
    }

    /// A uniformly chosen copy of one of `entries`.
    pub fn pick<T: Copy>(&mut self, entries: &[T]) -> (r: T)
        requires
            entries@.len() > 0,
        ensures
            r == entries@[(old(self).draw() as usize as int % entries@.len() as int)],
            *final(self) == old(self).next(),
    {
        let idx = self.rand_range(0, entries.len());
        entries[idx]
    }

    /// A uniformly chosen reference to one of `entries`.
    pub fn pick_ref<'a, T>(&mut self, entries: &'a [T]) -> (r: &'a T)
        requires
            entries@.len() > 0,
        ensures
            *r == entries@[(old(self).draw() as usize as int % entries@.len() as int)],
            *final(self) == old(self).next(),
    {
        let idx = self.rand_range(0, entries.len());
        &entries[idx]
    }

    /// A fair coin.
    pub fn bool(&mut self) -> (r: bool)
        ensures
            r == (old(self).draw() as usize % 2 == 0),
            *final(self) == old(self).next(),
    {
        0 == self.rand() % 2
    }

    /// True with probability `1 / prob`.
    pub fn bool_chance(&mut self, prob: usize) -> (r: bool)
        requires
            0 < prob,
        ensures
            prob == 1 ==> r,
            prob > 1 ==> r == (old(self).draw() as usize % prob == 0),
            final(self).exponential == old(self).exponential,
    {
        0 == self.rand_range(0, prob)
    }

    /// `size` independently drawn bytes.
    pub fn rand_byte_vec(&mut self, size: usize) -> (r: Vec<u8>)
        ensures
            r@ == byte_draws(*old(self), size as nat).0,
            *final(self) == byte_draws(*old(self), size as nat).1,
            r@.len() == size,
            forall|i: int| 0 <= i < size ==> r@[i] < 255,
            final(self).exponential == old(self).exponential,
    {
        let mut v: Vec<u8> = Vec::with_capacity(size);
        let mut i: usize = 0;
        while i < size
            invariant
                i <= size,
                v@.len() == i,
                forall|k: int| 0 <= k < i ==> v@[k] < 255,
                v@ == byte_draws(*old(self), i as nat).0,
                *self == byte_draws(*old(self), i as nat).1,
                self.exponential == old(self).exponential,
            decreases size - i,
        {
            let b = self.rand_byte();
            v.push(b);
            i = i + 1;
        }
        v
    }

    /// Shuffles `entries` in place (Fisher-Yates); two entries are always swapped.
    pub fn shuffle<T: Copy>(&mut self, entries: &mut [T])
        ensures
            final(entries)@.to_multiset() == old(entries)@.to_multiset(),
            final(entries)@.len() == old(entries)@.len(),
            old(entries)@.len() == 2 ==> final(entries)@ == seq![old(entries)@[1], old(entries)@[0]]
                && *final(self) == *old(self),
            old(entries)@.len() < 2 ==> final(entries)@ == old(entries)@ && *final(self) == *old(self),
            final(self).exponential == old(self).exponential,
    {
        let len = entries.len();
        if len == 2 {
            swap_entries(entries, 0, 1);
            assert(entries@ =~= seq![old(entries)@[1], old(entries)@[0]]);
            return;
        }
        let mut i: usize = len;
        while i > 1
            invariant
                i <= len,
                len < 2 ==> entries@ == old(entries)@ && *self == *old(self),
                entries@.len() == len,
                entries@.to_multiset() == old(entries)@.to_multiset(),
                self.exponential == old(self).exponential,
            decreases i,
        {
            i = i - 1;
            let j = self.rand_range(0, i + 1);
            swap_entries(entries, i, j);
        }
    }

    /// With probability one half a random byte, else one of `SPECIAL_CHAR`.
    pub fn rand_char(&mut self) -> (r: u8)
        ensures
            old(self).draw() as usize % 2 == 0 ==> r == (old(self).next().draw() as usize % 255) as u8,
            old(self).draw() as usize % 2 != 0 ==> exists|i: int| 0 <= i < 30 && r == SPECIAL_CHAR@[i],
            r != 0xff,
            final(self).exponential == old(self).exponential,
    {
        if self.bool() {
            return self.rand_byte();
        }
        let special = SPECIAL_CHAR;
        let idx = self.rand_range(0, 30);
        special[idx]
    }
    /// A value in `[min, max]`, both included: `min` when the two are equal, a raw
    /// draw for the whole range.
    pub fn gen_range(&mut self, min: usize, max: usize) -> (r: usize)
        requires
            min <= max,
        ensures
            min <= r <= max,
            min == max ==> r == min,
            final(self).exponential == old(self).exponential,
    {
        if min == max {
            return min;
        }
        if min == 0 && max == usize::MAX {
            return self.rand();
        }
        let v = self.rand();
        min + v % (max - min + 1)
    }

    /// A random byte in `[0, 255)`.
    pub fn gen_byte(&mut self) -> (r: u8)
        ensures
            r < 255,
            *final(self) == old(self).next(),
    {
        self.rand_byte()
    }

    /// A copy of the entry at a random draw modulo the number of entries.
    pub fn choose_entry<T: Copy>(&mut self, entries: &[T]) -> (r: T)
        requires
            entries@.len() > 0,
        ensures
            r == entries@[(old(self).draw() as usize as int % entries@.len() as int)],
            *final(self) == old(self).next(),
    {
        let idx = self.rand() % entries.len();
        entries[idx]
    }

    /// Appends whole draws, eight bytes each in the machine's byte order, until
    /// `buf` holds at least `sz` bytes.
    pub fn fill_bytes(&mut self, buf: &mut Vec<u8>, sz: usize)
        ensures
            final(buf)@.len() >= sz,
            final(buf)@.take(old(buf)@.len() as int) == old(buf)@,
            final(self).exponential == old(self).exponential,
    {
        while buf.len() < sz
            invariant
                buf@.len() >= old(buf)@.len(),
                buf@.take(old(buf)@.len() as int) == old(buf)@,
                self.exponential == old(self).exponential,
            decreases (if buf@.len() < sz { sz - buf@.len() } else { 0 }),
        {
            let v = self.rand();
            let bytes = crate::ni::native_bytes(v as i64);
            let ghost before = buf@;
            crate::ni::push_range(buf, &bytes, 0, 8);
            assert(buf@.take(old(buf)@.len() as int) =~= before.take(old(buf)@.len() as int));
        }
    }
    /// `size` distinct values of `[min, max)`: random draws, of which repeats are
    /// dropped; should the generator keep repeating itself, the smallest values
    /// not yet taken complete the list.
    pub fn rand_range_vec(&mut self, min: usize, max: usize, size: usize) -> (r: Vec<usize>)
        requires
            min <= max,
            size <= max - min,
        ensures
            r@.len() == size,
            r@.no_duplicates(),
            forall|i: int| 0 <= i < size ==> min <= #[trigger] r@[i] < max,
            final(self).exponential == old(self).exponential,
    {
        let mut v: Vec<usize> = Vec::new();
        let mut tries: usize = 0;
        while v.len() < size && tries < DISTINCT_DRAWS
            invariant
                min <= max,
                size <= max - min,
                v@.len() <= size,
                v@.no_duplicates(),
                forall|i: int| 0 <= i < v@.len() ==> min <= #[trigger] v@[i] < max,
                self.exponential == old(self).exponential,
            decreases DISTINCT_DRAWS - tries,
        {
            let b = self.rand_range(min, max);
            if !contains_value(&v, b) {
                v.push(b);
            }
            tries = tries + 1;
        }
        fill_distinct(&mut v, min, max, size);
        v
    }

    /// `n` distinct indices of `entries`, drawn as `rand_range_vec` draws them.
    pub fn choose_multiple<T>(&mut self, entries: &[T], n: usize) -> (r: Vec<usize>)
        requires
            n <= entries@.len(),
        ensures
            r@.len() == n,
            r@.no_duplicates(),
            forall|i: int| 0 <= i < n ==> #[trigger] r@[i] < entries@.len(),
            final(self).exponential == old(self).exponential,
    {
        self.rand_range_vec(0, entries.len(), n)
    }
}

/// How often `rand_range_vec` draws before it completes the list itself.
pub const DISTINCT_DRAWS: usize = 1 << 20;

/// True when `v` holds `x`.
fn contains_value(v: &Vec<usize>, x: usize) -> (r: bool)
    ensures
        r == v@.contains(x),
{
    let mut i: usize = 0;
    while i < v.len()
        invariant
            i <= v@.len(),
            forall|k: int| 0 <= k < i ==> v@[k] != x,
        decreases v@.len() - i,
    {
        if v[i] == x {
            return true;
        }
        i = i + 1;
    }
    false
}

/// A list without repeats that holds every value of `[lo, hi)` is at least
/// `hi - lo` long.
proof fn lemma_covering_len(s: Seq<usize>, lo: int, hi: int)
    requires
        0 <= lo <= hi <= usize::MAX + 1,
        s.no_duplicates(),
        forall|x: usize| lo <= x < hi ==> #[trigger] s.contains(x),
    ensures
        s.len() >= hi - lo,
{
    broadcast use vstd::seq_lib::seq_to_set_is_finite;

    let t = s.map_values(|x: usize| x as int);
    assert(t.no_duplicates()) by {
        assert forall|i: int, j: int| 0 <= i < t.len() && 0 <= j < t.len() && i != j implies t[i]
            != t[j] by {
            assert(s[i] != s[j]);
        }
    }
    t.unique_seq_to_set();
    assert(vstd::set_lib::set_int_range(lo, hi).subset_of(t.to_set())) by {
        assert forall|x: int| vstd::set_lib::set_int_range(lo, hi).contains(x) implies t.to_set().contains(
            x,
        ) by {
            let y = x as usize;
            assert(lo <= y < hi && y == x);
            assert(s.contains(y));
            let k = choose|k: int| 0 <= k < s.len() && s[k] == y;
            assert(t[k] == x);
        }
    }
    vstd::set_lib::lemma_int_range(lo, hi);
    vstd::set_lib::lemma_len_subset(vstd::set_lib::set_int_range(lo, hi), t.to_set());
}

/// Appends the smallest values of `[min, max)` that `v` lacks until it holds `size`.
fn fill_distinct(v: &mut Vec<usize>, min: usize, max: usize, size: usize)
    requires
        min <= max,
        size <= max - min,
        old(v)@.len() <= size,
        old(v)@.no_duplicates(),
        forall|i: int| 0 <= i < old(v)@.len() ==> min <= #[trigger] old(v)@[i] < max,
    ensures
        final(v)@.len() == size,
        final(v)@.no_duplicates(),
        forall|i: int| 0 <= i < size ==> min <= #[trigger] final(v)@[i] < max,
{
    let mut c = min;
    while v.len() < size && c < max
        invariant
            min <= c <= max,
            size <= max - min,
            v@.len() <= size,
            v@.no_duplicates(),
            forall|i: int| 0 <= i < v@.len() ==> min <= #[trigger] v@[i] < max,
            forall|x: usize| min <= x < c ==> #[trigger] v@.contains(x),
        decreases max - c,
    {
        if !contains_value(v, c) {
            let ghost before = v@;
            v.push(c);
            proof {
                assert forall|x: usize| min <= x < c + 1 implies #[trigger] v@.contains(x) by {
                    if x < c {
                        assert(before.contains(x));
                        let k = choose|k: int| 0 <= k < before.len() && before[k] == x;
                        assert(v@[k] == x);
                    } else {
                        assert(v@[v@.len() - 1] == c);
                    }
                }
            }
        } else {
            proof {
                assert forall|x: usize| min <= x < c + 1 implies #[trigger] v@.contains(x) by {
                    if x == c {
                        assert(v@.contains(c));
                    }
                }
            }
        }
        c = c + 1;
    }
    proof {
        if v@.len() < size {
            lemma_covering_len(v@, min as int, max as int);
        }
    }
}

/// The value that `rand_range(min, max)` takes from a draw `d`, for `min < max`.
pub open spec fn in_range(min: usize, max: usize, d: u64) -> int {
    min + (d as usize as int) % (max - min)
}

/// `n` bytes drawn one after the other, each a draw modulo 255, with the state
/// after them.
pub open spec fn byte_draws(g: Rng, n: nat) -> (Seq<u8>, Rng)
    decreases n,
{
    if n == 0 {
        (Seq::empty(), g)
    } else {
        let p = byte_draws(g, (n - 1) as nat);
        (p.0.push((p.1.draw() as usize % 255) as u8), p.1.next())
    }
}

/// How often `rand_two` draws again before it stops relying on the generator.
pub const REDRAW_LIMIT: usize = 1024;

/// Swaps two entries of a slice.
fn swap_entries<T: Copy>(entries: &mut [T], i: usize, j: usize)
    requires
        i < old(entries)@.len(),
        j < old(entries)@.len(),
    ensures
        final(entries)@ == old(entries)@.update(i as int, old(entries)@[j as int]).update(
            j as int,
            old(entries)@[i as int],
        ),
        final(entries)@.to_multiset() == old(entries)@.to_multiset(),
{
    let a = entries[i];
    let b = entries[j];
    entries[i] = b;
    entries[j] = a;
    proof {
        let s = old(entries)@;
        let s1 = s.update(i as int, s[j as int]);
        vstd::seq_lib::to_multiset_update(s, i as int, s[j as int]);
        vstd::seq_lib::to_multiset_update(s1, j as int, s[i as int]);
        assert(s1.to_multiset().insert(s[i as int]).remove(s1[j as int]) =~= s.to_multiset());
    }
}

} // verus!
