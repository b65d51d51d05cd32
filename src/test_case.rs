//! The test-case buffer: a byte sequence with a read cursor, and typed
//! consumers that fuzz targets use to turn the bytes into values.
use vstd::prelude::*;
use crate::error::Error;

verus! {

/// How `consume_str` turns bytes into text.
#[derive(Debug, Clone, Copy, PartialEq, Eq, Structural)]
pub enum Encoding {
    /// Lossy UTF-8.
    UTF8,
    /// Each byte mapped to a printable ASCII character.
    UTF8ASCII,
    /// Lossy UTF-16 of little-endian code units.
    UTF16,
}

/// `256^n`.
pub open spec fn pow256(n: nat) -> nat
    decreases n,
{
    if n == 0 {
        1
    } else {
        256 * pow256((n - 1) as nat)
    }
}

/// The value of a byte sequence read most significant byte first.
pub open spec fn be_value(s: Seq<u8>) -> nat
    decreases s.len(),
{
    if s.len() == 0 {
        0
    } else {
        be_value(s.drop_last()) * 256 + s.last() as nat
    }
}

/// A byte sequence in reverse order.
pub open spec fn rev(s: Seq<u8>) -> Seq<u8> {
    Seq::new(s.len(), |i: int| s[s.len() - 1 - i])
}

/// The unsigned value of a byte sequence in the given byte order.
pub open spec fn read_value(s: Seq<u8>, little_endian: bool) -> nat {
    if little_endian {
        be_value(rev(s))
    } else {
        be_value(s)
    }
}

/// The printable ASCII character that `UTF8ASCII` maps a byte to.
pub open spec fn printable(b: u8) -> u8 {
    (((b as int - 32) % 256) % 95 + 32) as u8
}

/// The text that lossy UTF-8 decoding gives for a byte sequence.
pub uninterp spec fn utf8_lossy(b: Seq<u8>) -> Seq<char>;

/// The text that lossy UTF-16 decoding gives for a sequence of code units.
pub uninterp spec fn utf16_lossy(u: Seq<u16>) -> Seq<char>;

/// The code units of a byte sequence read as little-endian pairs.
pub open spec fn le_units(b: Seq<u8>) -> Seq<u16> {
    Seq::new(b.len() / 2, |i: int| (b[2 * i] as int + 256 * b[2 * i + 1] as int) as u16)
}

/// Relies on `String::from_utf8_lossy`: the text depends on the bytes alone; it is
/// the bytes themselves when all of them are ASCII.
#[verifier::external_body]
fn decode_utf8_lossy(b: &[u8]) -> (r: String)
    ensures
        r@ == utf8_lossy(b@),
        (forall|i: int| 0 <= i < b@.len() ==> b@[i] < 128) ==> r@ == b@.map_values(
            |x: u8| x as char,
        ),
{
    String::from_utf8_lossy(b).into_owned()
}

/// Relies on `String::from_utf16_lossy`: the text depends on the code units alone.
#[verifier::external_body]
fn decode_utf16_lossy(u: &[u16]) -> (r: String)
    ensures
        r@ == utf16_lossy(u@),
{
    String::from_utf16_lossy(u)
}

/// The error of a consumer that asks for more bytes than are left.
pub open spec fn not_enough(e: Error) -> bool {
    &&& e is ConsumeError
    &&& e->ConsumeError_0@ == "Not enough data left to fullfil request"@
}

/// All bytes are ASCII.
pub open spec fn all_ascii(b: Seq<u8>) -> bool {
    forall|i: int| 0 <= i < b.len() ==> b[i] < 128
}

/// How many bytes `consume_str` reads for `len` units of text.
pub open spec fn str_bytes(len: usize, encoding: Encoding) -> int {
    if encoding == Encoding::UTF16 {
        2 * len
    } else {
        len as int
    }
}

/// The text that `consume_str` makes of the bytes it reads.
pub open spec fn decoded(b: Seq<u8>, encoding: Encoding) -> Seq<char> {
    match encoding {
        Encoding::UTF8 => utf8_lossy(b),
        Encoding::UTF8ASCII => b.map_values(|x: u8| printable(x) as char),
        Encoding::UTF16 => utf16_lossy(le_units(b)),
    }
}

/// The integer types that a test case can be consumed as.
pub trait FuzzInt: Sized + Copy {
    /// Width in bytes.
    spec fn bytes() -> nat;

    spec fn is_signed() -> bool;

    /// The largest value of the type.
    spec fn spec_max() -> int;

    spec fn to_int(self) -> int;

    /// Width in bytes; also states the facts that relate width, sign and range.
    fn width() -> (r: usize)
        ensures
            r == Self::bytes(),
            1 <= r <= 16,
            !Self::is_signed() ==> Self::spec_max() + 1 == pow256(r as nat),
            Self::is_signed() ==> 2 * (Self::spec_max() + 1) == pow256(r as nat),
    ;

    /// The value `raw`, which the type can hold.
    fn from_raw(raw: u128) -> (r: Self)
        requires
            raw <= Self::spec_max(),
        ensures
            r.to_int() == raw,
    ;

    /// `raw` reduced into `[min, max]` (see `reduce`).
    fn reduce_range(raw: Self, min: Self, max: Self) -> (r: Self)
        requires
            min.to_int() < max.to_int(),
            0 <= raw.to_int(),
            Self::is_signed() ==> raw.to_int() < Self::spec_max(),
        ensures
            r.to_int() == reduce(
                raw.to_int(),
                min.to_int(),
                max.to_int(),
                Self::spec_max(),
                Self::is_signed(),
            ),
            min.to_int() <= r.to_int() <= max.to_int(),
    ;

    fn signed() -> (r: bool)
        ensures
            r == Self::is_signed(),
    ;

    /// The largest value of the type, as a `u128`.
    fn max_raw() -> (r: u128)
        ensures
            r == Self::spec_max(),
    ;

    fn int_eq(&self, o: &Self) -> (r: bool)
        ensures
            r == (self.to_int() == o.to_int()),
    ;

    fn int_le(&self, o: &Self) -> (r: bool)
        ensures
            r == (self.to_int() <= o.to_int()),
    ;

    fn zero() -> (r: Self)
        ensures
            r.to_int() == 0,
    ;
}

/// The value that a consumer reads from `v`, the unsigned value of the bytes:
/// `v` itself for an unsigned type, `v` modulo the largest value for a signed one.
pub open spec fn raw_int(v: nat, tmax: int, signed: bool) -> int {
    if signed {
        v as int % tmax
    } else {
        v as int
    }
}

/// The value in `[min, max]` that `consume_int_range` makes of a raw value, for
/// `min < max`, where `tmax` is the largest value of the type. The difference
/// `max - min` is taken as the type would wrap it; a difference of the whole
/// range keeps the raw value.
pub open spec fn reduce(raw: int, min: int, max: int, tmax: int, signed: bool) -> int {
    let d = max - min;
    if d == tmax || (signed && d == 2 * tmax + 1) {
        min + raw
    } else if d < tmax {
        min + raw % (d + 1)
    } else {
        min + raw % (2 * tmax + 1 - d)
    }
}

/// `reduce` for an unsigned type whose largest value is `tmax`.
pub fn reduce_unsigned(raw: u128, min: u128, max: u128, tmax: u128) -> (r: u128)
    requires
        min < max <= tmax,
        raw <= tmax,
    ensures
        r == reduce(raw as int, min as int, max as int, tmax as int, false),
        min <= r <= max,
{
    let d = max - min;
    if d == tmax {
        min + raw
    } else {
        let m = d + 1;
        let w = raw % m;
        assert(w < m) by (nonlinear_arith)
            requires w == raw % m, m > 0;
        min + w
    }
}

/// `reduce` for a signed type whose largest value is `tmax`.
pub fn reduce_signed(raw: u128, min: i128, max: i128, tmax: i128) -> (r: i128)
    requires
        1 <= tmax,
        -tmax - 1 <= min < max <= tmax,
        raw < tmax,
    ensures
        r == reduce(raw as int, min as int, max as int, tmax as int, true),
        min <= r <= max,
{
    let d: u128 = if min >= 0 || max < 0 {
        (max - min) as u128
    } else {
        (max as u128) + ((-(min + 1)) as u128) + 1
    };
    assert(d == max - min);
    let tm = tmax as u128;
    if d == tm || d == 2 * tm + 1 {
        min + raw as i128
    } else {
        let m: u128 = if d < tm { d + 1 } else { 2 * tm + 1 - d };
        let w = raw % m;
        assert(w < m && w <= raw) by (nonlinear_arith)
            requires w == raw % m, m > 0;
        min + w as i128
    }
}

/// A value read from `n` bytes is below `256^n`.
pub proof fn lemma_be_bound(s: Seq<u8>)
    ensures
        be_value(s) < pow256(s.len()),
    decreases s.len(),
{
    if s.len() > 0 {
        lemma_be_bound(s.drop_last());
        let a = be_value(s.drop_last());
        let p = pow256(s.drop_last().len());
        let l = s.last() as nat;
        assert(a * 256 + l < 256 * p) by (nonlinear_arith)
            requires a < p, l < 256;
    }
}

/// `256^n` grows with `n`.
pub proof fn lemma_pow256_mono(i: nat, j: nat)
    requires
        i <= j,
    ensures
        pow256(i) <= pow256(j),
    decreases j,
{
    if i < j {
        lemma_pow256_mono(i, (j - 1) as nat);
    }
}

/// Reads `n <= 16` bytes of `data` from `start` in the given byte order.
pub fn read_raw(data: &Vec<u8>, start: usize, n: usize, little_endian: bool) -> (r: u128)
    requires
        start + n <= data@.len(),
        n <= 16,
    ensures
        r == read_value(data@.subrange(start as int, start + n), little_endian),
        r < pow256(n as nat),
{
    let ghost sub = data@.subrange(start as int, start + n);
    let dl = data.len();
    let mut ordered: Vec<u8> = Vec::with_capacity(n);
    let mut i: usize = 0;
    while i < n
        invariant
            i <= n,
            dl == data@.len(),
            start + n <= data@.len(),
            sub == data@.subrange(start as int, start + n),
            ordered@.len() == i,
            forall|k: int|
                0 <= k < i ==> #[trigger] ordered@[k] == (if little_endian {
                    rev(sub)[k]
                } else {
                    sub[k]
                }),
        decreases n - i,
    {
        let b = if little_endian { data[start + (n - 1 - i)] } else { data[start + i] };
        ordered.push(b);
        i = i + 1;
    }
    let ghost o = if little_endian { rev(sub) } else { sub };
    assert(ordered@ =~= o);
    let mut acc: u128 = 0;
    let mut j: usize = 0;
    proof {
        reveal_with_fuel(pow256, 17);
        lemma_pow256_mono(n as nat, 16);
    }
    while j < n
        invariant
            j <= n <= 16,
            ordered@ == o,
            o.len() == n,
            pow256(n as nat) <= pow256(16),
            pow256(16) == 0x1_0000_0000_0000_0000_0000_0000_0000_0000,
            acc == be_value(o.subrange(0, j as int)),
        decreases n - j,
    {
        proof {
            lemma_be_bound(o.subrange(0, j as int));
            lemma_pow256_mono((j + 1) as nat, n as nat);
            assert(o.subrange(0, j + 1).drop_last() =~= o.subrange(0, j as int));
            let a = acc as nat;
            let p = pow256(j as nat);
            let l = o[j as int] as nat;
            assert(a * 256 + l < 256 * p) by (nonlinear_arith)
                requires a < p, l < 256;
        }
        acc = acc * 256 + ordered[j] as u128;
        j = j + 1;
    }
    proof {
        assert(o.subrange(0, n as int) =~= o);
        lemma_be_bound(o);
    }
    acc
}

impl FuzzInt for u8 {
    open spec fn bytes() -> nat {
        1
    }

    open spec fn is_signed() -> bool {
        false
    }

    open spec fn spec_max() -> int {
        0xff
    }

    open spec fn to_int(self) -> int {
        self as int
    }

    fn width() -> (r: usize) {
        proof {
            reveal_with_fuel(pow256, 2);
        }
        1
    }

    fn from_raw(raw: u128) -> (r: Self) {
        raw as u8
    }

    fn reduce_range(raw: Self, min: Self, max: Self) -> (r: Self) {
        reduce_unsigned(raw as u128, min as u128, max as u128, 0xff) as u8
    }

    fn signed() -> (r: bool) {
        false
    }

    fn max_raw() -> (r: u128) {
        0xff
    }

    fn int_eq(&self, o: &Self) -> (r: bool) {
        *self == *o
    }

    fn int_le(&self, o: &Self) -> (r: bool) {
        *self <= *o
    }

    fn zero() -> (r: Self) {
        0
    }
}

impl FuzzInt for u16 {
    open spec fn bytes() -> nat {
        2
    }

    open spec fn is_signed() -> bool {
        false
    }

    open spec fn spec_max() -> int {
        0xffff
    }

    open spec fn to_int(self) -> int {
        self as int
    }

    fn width() -> (r: usize) {
        proof {
            reveal_with_fuel(pow256, 3);
        }
        2
    }

    fn from_raw(raw: u128) -> (r: Self) {
        raw as u16
    }

    fn reduce_range(raw: Self, min: Self, max: Self) -> (r: Self) {
        reduce_unsigned(raw as u128, min as u128, max as u128, 0xffff) as u16
    }

    fn signed() -> (r: bool) {
        false
    }

    fn max_raw() -> (r: u128) {
        0xffff
    }

    fn int_eq(&self, o: &Self) -> (r: bool) {
        *self == *o
    }

    fn int_le(&self, o: &Self) -> (r: bool) {
        *self <= *o
    }

    fn zero() -> (r: Self) {
        0
    }
}

impl FuzzInt for u32 {
    open spec fn bytes() -> nat {
        4
    }

    open spec fn is_signed() -> bool {
        false
    }

    open spec fn spec_max() -> int {
        0xffff_ffff
    }

    open spec fn to_int(self) -> int {
        self as int
    }

    fn width() -> (r: usize) {
        proof {
            reveal_with_fuel(pow256, 5);
        }
        4
    }

    fn from_raw(raw: u128) -> (r: Self) {
        raw as u32
    }

    fn reduce_range(raw: Self, min: Self, max: Self) -> (r: Self) {
        reduce_unsigned(raw as u128, min as u128, max as u128, 0xffff_ffff) as u32
    }

    fn signed() -> (r: bool) {
        false
    }

    fn max_raw() -> (r: u128) {
        0xffff_ffff
    }

    fn int_eq(&self, o: &Self) -> (r: bool) {
        *self == *o
    }

    fn int_le(&self, o: &Self) -> (r: bool) {
        *self <= *o
    }

    fn zero() -> (r: Self) {
        0
    }
}

impl FuzzInt for u64 {
    open spec fn bytes() -> nat {
        8
    }

    open spec fn is_signed() -> bool {
        false
    }

    open spec fn spec_max() -> int {
        0xffff_ffff_ffff_ffff
    }

    open spec fn to_int(self) -> int {
        self as int
    }

    fn width() -> (r: usize) {
        proof {
            reveal_with_fuel(pow256, 9);
        }
        8
    }

    fn from_raw(raw: u128) -> (r: Self) {
        raw as u64
    }

    fn reduce_range(raw: Self, min: Self, max: Self) -> (r: Self) {
        reduce_unsigned(raw as u128, min as u128, max as u128, 0xffff_ffff_ffff_ffff) as u64
    }

    fn signed() -> (r: bool) {
        false
    }

    fn max_raw() -> (r: u128) {
        0xffff_ffff_ffff_ffff
    }

    fn int_eq(&self, o: &Self) -> (r: bool) {
        *self == *o
    }

    fn int_le(&self, o: &Self) -> (r: bool) {
        *self <= *o
    }

    fn zero() -> (r: Self) {
        0
    }
}

impl FuzzInt for u128 {
    open spec fn bytes() -> nat {
        16
    }

    open spec fn is_signed() -> bool {
        false
    }

    open spec fn spec_max() -> int {
        0xffff_ffff_ffff_ffff_ffff_ffff_ffff_ffff
    }

    open spec fn to_int(self) -> int {
        self as int
    }

    fn width() -> (r: usize) {
        proof {
            reveal_with_fuel(pow256, 17);
        }
        16
    }

    fn from_raw(raw: u128) -> (r: Self) {
        raw as u128
    }

    fn reduce_range(raw: Self, min: Self, max: Self) -> (r: Self) {
        reduce_unsigned(raw as u128, min as u128, max as u128, 0xffff_ffff_ffff_ffff_ffff_ffff_ffff_ffff) as u128
    }

    fn signed() -> (r: bool) {
        false
    }

    fn max_raw() -> (r: u128) {
        0xffff_ffff_ffff_ffff_ffff_ffff_ffff_ffff
    }

    fn int_eq(&self, o: &Self) -> (r: bool) {
        *self == *o
    }

    fn int_le(&self, o: &Self) -> (r: bool) {
        *self <= *o
    }

    fn zero() -> (r: Self) {
        0
    }
}

impl FuzzInt for i8 {
    open spec fn bytes() -> nat {
        1
    }

    open spec fn is_signed() -> bool {
        true
    }

    open spec fn spec_max() -> int {
        0x7f
    }

    open spec fn to_int(self) -> int {
        self as int
    }

    fn width() -> (r: usize) {
        proof {
            reveal_with_fuel(pow256, 2);
        }
        1
    }

    fn from_raw(raw: u128) -> (r: Self) {
        raw as i8
    }

    fn reduce_range(raw: Self, min: Self, max: Self) -> (r: Self) {
        reduce_signed(raw as u128, min as i128, max as i128, 0x7f) as i8
    }

    fn signed() -> (r: bool) {
        true
    }

    fn max_raw() -> (r: u128) {
        0x7f
    }

    fn int_eq(&self, o: &Self) -> (r: bool) {
        *self == *o
    }

    fn int_le(&self, o: &Self) -> (r: bool) {
        *self <= *o
    }

    fn zero() -> (r: Self) {
        0
    }
}

impl FuzzInt for i16 {
    open spec fn bytes() -> nat {
        2
    }

    open spec fn is_signed() -> bool {
        true
    }

    open spec fn spec_max() -> int {
        0x7fff
    }

    open spec fn to_int(self) -> int {
        self as int
    }

    fn width() -> (r: usize) {
        proof {
            reveal_with_fuel(pow256, 3);
        }
        2
    }

    fn from_raw(raw: u128) -> (r: Self) {
        raw as i16
    }

    fn reduce_range(raw: Self, min: Self, max: Self) -> (r: Self) {
        reduce_signed(raw as u128, min as i128, max as i128, 0x7fff) as i16
    }

    fn signed() -> (r: bool) {
        true
    }

    fn max_raw() -> (r: u128) {
        0x7fff
    }

    fn int_eq(&self, o: &Self) -> (r: bool) {
        *self == *o
    }

    fn int_le(&self, o: &Self) -> (r: bool) {
        *self <= *o
    }

    fn zero() -> (r: Self) {
        0
    }
}

impl FuzzInt for i32 {
    open spec fn bytes() -> nat {
        4
    }

    open spec fn is_signed() -> bool {
        true
    }

    open spec fn spec_max() -> int {
        0x7fff_ffff
    }

    open spec fn to_int(self) -> int {
        self as int
    }

    fn width() -> (r: usize) {
        proof {
            reveal_with_fuel(pow256, 5);
        }
        4
    }

    fn from_raw(raw: u128) -> (r: Self) {
        raw as i32
    }

    fn reduce_range(raw: Self, min: Self, max: Self) -> (r: Self) {
        reduce_signed(raw as u128, min as i128, max as i128, 0x7fff_ffff) as i32
    }

    fn signed() -> (r: bool) {
        true
    }

    fn max_raw() -> (r: u128) {
        0x7fff_ffff
    }

    fn int_eq(&self, o: &Self) -> (r: bool) {
        *self == *o
    }

    fn int_le(&self, o: &Self) -> (r: bool) {
        *self <= *o
    }

    fn zero() -> (r: Self) {
        0
    }
}

impl FuzzInt for i64 {
    open spec fn bytes() -> nat {
        8
    }

    open spec fn is_signed() -> bool {
        true
    }

    open spec fn spec_max() -> int {
        0x7fff_ffff_ffff_ffff
    }

    open spec fn to_int(self) -> int {
        self as int
    }

    fn width() -> (r: usize) {
        proof {
            reveal_with_fuel(pow256, 9);
        }
        8
    }

    fn from_raw(raw: u128) -> (r: Self) {
        raw as i64
    }

    fn reduce_range(raw: Self, min: Self, max: Self) -> (r: Self) {
        reduce_signed(raw as u128, min as i128, max as i128, 0x7fff_ffff_ffff_ffff) as i64
    }

    fn signed() -> (r: bool) {
        true
    }

    fn max_raw() -> (r: u128) {
        0x7fff_ffff_ffff_ffff
    }

    fn int_eq(&self, o: &Self) -> (r: bool) {
        *self == *o
    }

    fn int_le(&self, o: &Self) -> (r: bool) {
        *self <= *o
    }

    fn zero() -> (r: Self) {
        0
    }
}

impl FuzzInt for i128 {
    open spec fn bytes() -> nat {
        16
    }

    open spec fn is_signed() -> bool {
        true
    }

    open spec fn spec_max() -> int {
        0x7fff_ffff_ffff_ffff_ffff_ffff_ffff_ffff
    }

    open spec fn to_int(self) -> int {
        self as int
    }

    fn width() -> (r: usize) {
        proof {
            reveal_with_fuel(pow256, 17);
        }
        16
    }

    fn from_raw(raw: u128) -> (r: Self) {
        raw as i128
    }

    fn reduce_range(raw: Self, min: Self, max: Self) -> (r: Self) {
        reduce_signed(raw as u128, min as i128, max as i128, 0x7fff_ffff_ffff_ffff_ffff_ffff_ffff_ffff) as i128
    }

    fn signed() -> (r: bool) {
        true
    }

    fn max_raw() -> (r: u128) {
        0x7fff_ffff_ffff_ffff_ffff_ffff_ffff_ffff
    }

    fn int_eq(&self, o: &Self) -> (r: bool) {
        *self == *o
    }

    fn int_le(&self, o: &Self) -> (r: bool) {
        *self <= *o
    }

    fn zero() -> (r: Self) {
        0
    }
}

/// The test case: a byte buffer, its length and a read cursor. `energy` and
/// `accessed` are reserved for a scheduler and not used by the engine.
#[derive(Debug)]
pub struct TestCase {
    pub data: Vec<u8>,
    pub size: usize,
    pub data_ptr: usize,
    pub energy: usize,
    pub accessed: Vec<usize>,
}

impl TestCase {
    /// The length equals the buffer's and the cursor stays within it.
    pub open spec fn wf(&self) -> bool {
        &&& self.size == self.data@.len()
        &&& self.data_ptr <= self.size
    }

    /// How many bytes are left to read.
    pub open spec fn remaining(&self) -> int {
        self.size - self.data_ptr
    }

    /// The next `n` unread bytes.
    pub open spec fn unread(&self, n: int) -> Seq<u8> {
        self.data@.subrange(self.data_ptr as int, self.data_ptr + n)
    }

    /// `self` is `old` with the cursor moved on by `n`.
    pub open spec fn advanced(&self, old: &TestCase, n: int) -> bool {
        &&& self.data@ == old.data@
        &&& self.size == old.size
        &&& self.data_ptr == old.data_ptr + n
        &&& self.energy == old.energy
        &&& self.accessed@ == old.accessed@
    }

    /// A test case over a copy of `data`, with the cursor at the start.
    pub fn new(data: &Vec<u8>) -> (r: Self)
        ensures
            r.wf(),
            r.data@ == data@,
            r.data_ptr == 0,
            r.energy == 0,
            r.accessed@.len() == 0,
    {
        TestCase {
            data: data.clone(),
            size: data.len(),
            data_ptr: 0,
            energy: 0,
            accessed: Vec::new(),
        }
    }

    pub fn get_data_pointer(&mut self) -> (r: usize)
        ensures
            r == old(self).data_ptr,
            *final(self) == *old(self),
    {
        self.data_ptr
    }

    pub fn get_energy(&mut self) -> (r: usize)
        ensures
            r == old(self).energy,
            *final(self) == *old(self),
    {
        self.energy
    }

    pub fn set_energy(self, energy: usize) -> (r: Self)
        ensures
            r.energy == energy,
            r.data == self.data,
            r.size == self.size,
            r.data_ptr == self.data_ptr,
            r.accessed == self.accessed,
    {
        let mut s = self;
        s.energy = energy;
        s
    }

    pub fn get_size(&mut self) -> (r: usize)
        ensures
            r == old(self).size,
            *final(self) == *old(self),
    {
        self.size
    }

    /// Appends `indices` to the accessed list.
    pub fn set_accessed(self, indices: Vec<usize>) -> (r: Self)
        ensures
            r.accessed@ == self.accessed@ + indices@,
            r.data == self.data,
            r.size == self.size,
            r.data_ptr == self.data_ptr,
            r.energy == self.energy,
    {
        let mut s = self;
        let mut i: usize = 0;
        while i < indices.len()
            invariant
                i <= indices@.len(),
                s.accessed@ == self.accessed@ + indices@.subrange(0, i as int),
                s.data == self.data,
                s.size == self.size,
                s.data_ptr == self.data_ptr,
                s.energy == self.energy,
            decreases indices@.len() - i,
        {
            s.accessed.push(indices[i]);
            i = i + 1;
            assert(indices@.subrange(0, i as int) =~= indices@.subrange(0, i - 1).push(
                indices@[i - 1],
            ));
        }
        assert(indices@.subrange(0, indices@.len() as int) =~= indices@);
        s
    }

    pub fn clear_accessed(&mut self)
        ensures
            final(self).accessed@.len() == 0,
            final(self).data == old(self).data,
            final(self).size == old(self).size,
            final(self).data_ptr == old(self).data_ptr,
            final(self).energy == old(self).energy,
    {
        self.accessed.clear();
    }

    /// Fails unless `requested` bytes are left.
    fn is_size_sane(&self, requested: usize) -> (r: Result<(), Error>)
        requires
            self.wf(),
        ensures
            r is Ok <==> requested <= self.remaining(),
            r is Err ==> not_enough(r->Err_0),
    {
        if requested > self.size - self.data_ptr {
            return Err(Error::new("Not enough data left to fullfil request"));
        }
        Ok(())
    }

    /// `len` when that many bytes are left, else an error.
    fn get_max(&self, len: usize) -> (r: Result<usize, Error>)
        requires
            self.wf(),
        ensures
            r is Ok <==> len <= self.remaining(),
            r is Ok ==> r->Ok_0 == len,
            r is Err ==> not_enough(r->Err_0),
    {
        match self.is_size_sane(len) {
            Ok(()) => Ok(len),
            Err(e) => Err(e),
        }
    }

    /// The next byte.
    pub fn consume_byte(&mut self) -> (r: Result<u8, Error>)
        requires
            old(self).wf(),
        ensures
            final(self).wf(),
            old(self).remaining() < 1 ==> r is Err && not_enough(r->Err_0) && *final(self)
                == *old(self),
            old(self).remaining() >= 1 ==> r == Ok::<u8, Error>(
                old(self).data@[old(self).data_ptr as int],
            ) && final(self).advanced(old(self), 1),
    {
        if let Err(e) = self.get_max(1) {
            return Err(e);
        }
        let ret = self.data[self.data_ptr];
        self.data_ptr = self.data_ptr + 1;
        Ok(ret)
    }

    /// The lowest bit of the next byte.
    pub fn consume_bool(&mut self) -> (r: Result<bool, Error>)
        requires
            old(self).wf(),
        ensures
            final(self).wf(),
            old(self).remaining() < 1 ==> r is Err && not_enough(r->Err_0) && *final(self)
                == *old(self),
            old(self).remaining() >= 1 ==> r == Ok::<bool, Error>(
                old(self).data@[old(self).data_ptr as int] & 1 == 1,
            ) && final(self).advanced(old(self), 1),
    {
        match self.consume_byte() {
            Ok(b) => Ok(b & 1 == 1),
            Err(e) => Err(e),
        }
    }

    /// The lowest bits of the next `num` bytes.
    pub fn consume_booleans(&mut self, num: usize) -> (r: Result<Vec<bool>, Error>)
        requires
            old(self).wf(),
        ensures
            final(self).wf(),
            old(self).remaining() < num ==> r is Err && not_enough(r->Err_0) && *final(self)
                == *old(self),
            old(self).remaining() >= num ==> r is Ok && final(self).advanced(old(self), num as int)
                && r->Ok_0@ == old(self).unread(num as int).map_values(|b: u8| b & 1 == 1),
    {
        let max = match self.get_max(num) {
            Ok(m) => m,
            Err(e) => return Err(e),
        };
        let ghost start = *self;
        let mut bools: Vec<bool> = Vec::with_capacity(max);
        let mut i: usize = 0;
        while i < max
            invariant
                self.wf(),
                i <= max,
                max == num,
                num <= start.remaining(),
                self.advanced(&start, i as int),
                bools@ =~= start.unread(i as int).map_values(|b: u8| b & 1 == 1),
            decreases max - i,
        {
            let b = self.consume_bool();
            match b {
                Ok(v) => bools.push(v),
                Err(_) => bools.push(false),
            }
            i = i + 1;
            assert(start.unread(i as int) =~= start.unread(i - 1).push(
                start.data@[start.data_ptr + i - 1],
            ));
        }
        Ok(bools)
    }

    /// The next `num` bytes.
    pub fn consume_bytes(&mut self, num: usize) -> (r: Result<Vec<u8>, Error>)
        requires
            old(self).wf(),
        ensures
            final(self).wf(),
            old(self).remaining() < num ==> r is Err && not_enough(r->Err_0) && *final(self)
                == *old(self),
            old(self).remaining() >= num ==> r is Ok && final(self).advanced(old(self), num as int)
                && r->Ok_0@ == old(self).unread(num as int),
    {
        let max = match self.get_max(num) {
            Ok(m) => m,
            Err(e) => return Err(e),
        };
        let ghost start = *self;
        let mut bytes: Vec<u8> = Vec::with_capacity(max);
        let mut i: usize = 0;
        while i < max
            invariant
                self.wf(),
                i <= max,
                max == num,
                num <= start.remaining(),
                self.advanced(&start, i as int),
                bytes@ =~= start.unread(i as int),
            decreases max - i,
        {
            let b = self.data[self.data_ptr];
            self.data_ptr = self.data_ptr + 1;
            bytes.push(b);
            i = i + 1;
        }
        Ok(bytes)
    }

    /// All bytes that are left.
    pub fn consume_remaining_as_bytes(&mut self) -> (r: Result<Vec<u8>, Error>)
        requires
            old(self).wf(),
        ensures
            final(self).wf(),
            r is Ok,
            r->Ok_0@ == old(self).data@.subrange(old(self).data_ptr as int, old(self).size as int),
            final(self).advanced(old(self), old(self).remaining()),
    {
        self.consume_bytes(self.size - self.data_ptr)
    }

    /// Text made of the next `len` bytes (`2 * len` for UTF-16).
    pub fn consume_str(&mut self, len: usize, encoding: Encoding) -> (r: Result<String, Error>)
        requires
            old(self).wf(),
        ensures
            final(self).wf(),
            old(self).remaining() < str_bytes(len, encoding) ==> r is Err && not_enough(r->Err_0)
                && *final(self) == *old(self),
            old(self).remaining() >= str_bytes(len, encoding) ==> r is Ok && final(self).advanced(
                old(self),
                str_bytes(len, encoding),
            ) && r->Ok_0@ == decoded(old(self).unread(str_bytes(len, encoding)), encoding),
            encoding == Encoding::UTF8 && old(self).remaining() >= len && all_ascii(
                old(self).unread(len as int),
            ) ==> r->Ok_0@ == old(self).unread(len as int).map_values(|x: u8| x as char),
    {
        let n: usize = match encoding {
            Encoding::UTF16 => {
                if len > (self.size - self.data_ptr) / 2 {
                    return Err(Error::new("Not enough data left to fullfil request"));
                }
                2 * len
            },
            _ => len,
        };
        let bytes = match self.consume_bytes(n) {
            Ok(b) => b,
            Err(e) => return Err(e),
        };
        match encoding {
            Encoding::UTF8 => Ok(decode_utf8_lossy(bytes.as_slice())),
            Encoding::UTF8ASCII => {
                let mut mapped: Vec<u8> = Vec::with_capacity(n);
                let mut i: usize = 0;
                while i < n
                    invariant
                        i <= n,
                        n == bytes@.len(),
                        mapped@.len() == i,
                        forall|k: int| 0 <= k < i ==> mapped@[k] == printable(#[trigger] bytes@[k]),
                        forall|k: int| 0 <= k < i ==> #[trigger] mapped@[k] < 128,
                    decreases n - i,
                {
                    let b = bytes[i];
                    let p = b.wrapping_sub(32) % 95 + 32;
                    assert(p == printable(b));
                    assert(p < 128);
                    mapped.push(p);
                    i = i + 1;
                }
                let s = decode_utf8_lossy(mapped.as_slice());
                assert(mapped@.map_values(|x: u8| x as char) =~= bytes@.map_values(
                    |b: u8| printable(b) as char,
                ));
                assert(s@ =~= bytes@.map_values(|b: u8| printable(b) as char));
                Ok(s)
            },
            Encoding::UTF16 => {
                let mut units: Vec<u16> = Vec::with_capacity(len);
                let mut i: usize = 0;
                while i < len
                    invariant
                        i <= len,
                        n == 2 * len,
                        n == bytes@.len(),
                        units@.len() == i,
                        forall|k: int|
                            0 <= k < i ==> units@[k] == #[trigger] le_units(bytes@)[k],
                    decreases len - i,
                {
                    let lo = bytes[2 * i] as u16;
                    let hi = bytes[2 * i + 1] as u16;
                    units.push(lo + 256 * hi);
                    i = i + 1;
                }
                assert(units@ =~= le_units(bytes@));
                Ok(decode_utf16_lossy(units.as_slice()))
            },
        }
    }

    /// Text made of all bytes that are left (for UTF-16, of all whole pairs).
    pub fn consume_remaining_as_str(&mut self, encoding: Encoding) -> (r: Result<String, Error>)
        requires
            old(self).wf(),
        ensures
            final(self).wf(),
            r is Ok,
            ({
                let n = if encoding == Encoding::UTF16 {
                    2 * (old(self).remaining() / 2)
                } else {
                    old(self).remaining()
                };
                &&& final(self).advanced(old(self), n)
                &&& r->Ok_0@ == decoded(old(self).unread(n), encoding)
                &&& encoding == Encoding::UTF8 && all_ascii(old(self).unread(n)) ==> r->Ok_0@
                    == old(self).unread(n).map_values(|x: u8| x as char)
            }),
    {
        let left = self.size - self.data_ptr;
        let len = if encoding == Encoding::UTF16 { left / 2 } else { left };
        self.consume_str(len, encoding)
    }
    /// The value that `consume_int::<T>` reads from the bytes at `pos`.
    pub open spec fn int_at<T: FuzzInt>(&self, pos: int, little_endian: bool) -> int {
        raw_int(
            read_value(self.data@.subrange(pos, pos + T::bytes()), little_endian),
            T::spec_max(),
            T::is_signed(),
        )
    }

    /// An integer of type `T` from the next `size_of::<T>()` bytes. An unsigned type
    /// takes the bytes' value; a signed one takes it modulo its largest value.
    pub fn consume_int<T: FuzzInt>(&mut self, is_little_endian: bool) -> (r: Result<T, Error>)
        requires
            old(self).wf(),
        ensures
            final(self).wf(),
            old(self).remaining() < T::bytes() ==> r is Err && not_enough(r->Err_0) && *final(self) == *old(self),
            old(self).remaining() >= T::bytes() ==> r is Ok && final(self).advanced(
                old(self),
                T::bytes() as int,
            ) && r->Ok_0.to_int() == old(self).int_at::<T>(
                old(self).data_ptr as int,
                is_little_endian,
            ),
    {
        let w = T::width();
        if w > self.size - self.data_ptr {
            return Err(Error::new("Not enough data left to fullfil request"));
        }
        let v = read_raw(&self.data, self.data_ptr, w, is_little_endian);
        self.data_ptr = self.data_ptr + w;
        let raw = if T::signed() {
            let m = T::max_raw();
            proof {
                reveal_with_fuel(pow256, 2);
                lemma_pow256_mono(1, w as nat);
            }
            let q = v % m;
            assert(q < m) by (nonlinear_arith)
                requires q == v % m, m > 0;
            q
        } else {
            v
        };
        Ok(T::from_raw(raw))
    }

    /// `num` integers of type `T`, read one after the other.
    pub fn consume_ints<T: FuzzInt>(&mut self, is_little_endian: bool, num: usize) -> (r: Result<
        Vec<T>,
        Error,
    >)
        requires
            old(self).wf(),
        ensures
            final(self).wf(),
            old(self).remaining() < num * T::bytes() ==> r is Err && not_enough(r->Err_0) && *final(self) == *old(self),
            old(self).remaining() >= num * T::bytes() ==> r is Ok && final(self).advanced(
                old(self),
                num * T::bytes(),
            ) && r->Ok_0@.len() == num && forall|i: int|
                0 <= i < num ==> (#[trigger] r->Ok_0@[i]).to_int() == old(self).int_at::<T>(
                    old(self).data_ptr + i * T::bytes(),
                    is_little_endian,
                ),
    {
        let w = T::width();
        let left = self.size - self.data_ptr;
        if num > left / w {
            assert(num * w > left) by (nonlinear_arith)
                requires num > left / w, w > 0;
            return Err(Error::new("Not enough data left to fullfil request"));
        }
        assert(num * w <= left) by (nonlinear_arith)
            requires num <= left / w, w > 0;
        let ghost start = *self;
        let mut nums: Vec<T> = Vec::with_capacity(num);
        let mut i: usize = 0;
        while i < num
            invariant
                self.wf(),
                i <= num,
                w == T::bytes(),
                1 <= w,
                num * w <= start.remaining(),
                self.advanced(&start, i * w),
                nums@.len() == i,
                forall|k: int|
                    0 <= k < i ==> (#[trigger] nums@[k]).to_int() == start.int_at::<T>(
                        start.data_ptr + k * w,
                        is_little_endian,
                    ),
            decreases num - i,
        {
            proof {
                assert((i + 1) * w <= num * w) by (nonlinear_arith)
                    requires i + 1 <= num, w >= 1;
                assert((i + 1) * w == i * w + w) by (nonlinear_arith);
            }
            let v = self.consume_int::<T>(is_little_endian);
            match v {
                Ok(x) => nums.push(x),
                Err(_) => nums.push(T::zero()),
            }
            i = i + 1;
        }
        Ok(nums)
    }

    /// An integer of type `T` in `[min, max]`: `min` itself, without reading, when
    /// the two are equal; else a value read as `consume_int` does and reduced into the
    /// range (see `reduce`).
    pub fn consume_int_range<T: FuzzInt>(&mut self, is_little_endian: bool, min: T, max: T) -> (r:
        Result<T, Error>)
        requires
            old(self).wf(),
            min.to_int() <= max.to_int(),
        ensures
            final(self).wf(),
            r is Ok ==> min.to_int() <= r->Ok_0.to_int() <= max.to_int(),
            min.to_int() == max.to_int() ==> r == Ok::<T, Error>(min) && *final(self) == *old(self),
            min.to_int() < max.to_int() && old(self).remaining() < T::bytes() ==> r is Err
                && not_enough(r->Err_0) && *final(self) == *old(self),
            min.to_int() < max.to_int() && old(self).remaining() >= T::bytes() ==> r is Ok
                && final(self).advanced(old(self), T::bytes() as int) && r->Ok_0.to_int()
                == reduce(
                old(self).int_at::<T>(old(self).data_ptr as int, is_little_endian),
                min.to_int(),
                max.to_int(),
                T::spec_max(),
                T::is_signed(),
            ),
    {
        if max.int_eq(&min) {
            return Ok(min);
        }
        let raw = match self.consume_int::<T>(is_little_endian) {
            Ok(v) => v,
            Err(e) => return Err(e),
        };
        let w = T::width();
        proof {
            reveal_with_fuel(pow256, 2);
            lemma_pow256_mono(1, w as nat);
            let v = read_value(old(self).unread(w as int), is_little_endian);
            let m = T::spec_max();
            if T::is_signed() {
                assert(0 <= v as int % m < m) by (nonlinear_arith)
                    requires m > 0;
            }
        }
        Ok(T::reduce_range(raw, min, max))
    }

    /// `num` integers of type `T` in `[min, max]`, read one after the other.
    pub fn consume_ints_range<T: FuzzInt>(
        &mut self,
        is_little_endian: bool,
        num: usize,
        min: T,
        max: T,
    ) -> (r: Result<Vec<T>, Error>)
        requires
            old(self).wf(),
            min.to_int() <= max.to_int(),
        ensures
            final(self).wf(),
            old(self).remaining() < num * T::bytes() ==> r is Err && not_enough(r->Err_0) && *final(self) == *old(self),
            old(self).remaining() >= num * T::bytes() ==> r is Ok && r->Ok_0@.len() == num,
            r is Ok ==> forall|i: int|
                0 <= i < r->Ok_0@.len() ==> min.to_int() <= (#[trigger] r->Ok_0@[i]).to_int()
                    <= max.to_int(),
    {
        let w = T::width();
        let left = self.size - self.data_ptr;
        if num > left / w {
            assert(num * w > left) by (nonlinear_arith)
                requires num > left / w, w > 0;
            return Err(Error::new("Not enough data left to fullfil request"));
        }
        assert(num * w <= left) by (nonlinear_arith)
            requires num <= left / w, w > 0;
        let mut nums: Vec<T> = Vec::with_capacity(num);
        let mut i: usize = 0;
        while i < num
            invariant
                self.wf(),
                i <= num,
                min.to_int() <= max.to_int(),
                nums@.len() == i,
                forall|k: int|
                    0 <= k < i ==> min.to_int() <= (#[trigger] nums@[k]).to_int() <= max.to_int(),
            decreases num - i,
        {
            let v = self.consume_int_range::<T>(is_little_endian, min, max);
            match v {
                Ok(x) => nums.push(x),
                Err(_) => nums.push(min),
            }
            i = i + 1;
        }
        Ok(nums)
    }

    /// The bit pattern of an IEEE-754 `binary64` read from the next eight bytes,
    /// little-endian. With fewer left, the bytes that are there are padded with zeros
    /// to eight and read most significant first; with none left, zero.
    pub fn consume_float_bits(&mut self) -> (r: Result<u64, Error>)
        requires
            old(self).wf(),
        ensures
            final(self).wf(),
            r is Ok,
            old(self).remaining() == 0 ==> r->Ok_0 == 0 && *final(self) == *old(self),
            0 < old(self).remaining() < 8 ==> r->Ok_0 == be_value(
                old(self).unread(old(self).remaining()) + Seq::new(
                    (8 - old(self).remaining()) as nat,
                    |i: int| 0u8,
                ),
            ) && final(self).advanced(old(self), old(self).remaining()),
            old(self).remaining() >= 8 ==> r->Ok_0 == read_value(old(self).unread(8), true)
                && final(self).advanced(old(self), 8),
    {
        if self.data_ptr == self.size {
            return Ok(0);
        }
        proof {
            reveal_with_fuel(pow256, 9);
        }
        if self.size - self.data_ptr < 8 {
            let k = self.size - self.data_ptr;
            let ghost pad = Seq::new((8 - k) as nat, |i: int| 0u8);
            let mut padded: Vec<u8> = Vec::with_capacity(8);
            let mut i: usize = 0;
            while i < 8
                invariant
                    self.wf(),
                    k == self.size - self.data_ptr,
                    0 < k < 8,
                    pad == Seq::new((8 - k) as nat, |i: int| 0u8),
                    i <= 8,
                    padded@.len() == i,
                    forall|j: int|
                        0 <= j < i ==> #[trigger] padded@[j] == (self.unread(k as int) + pad)[j],
                decreases 8 - i,
            {
                let b = if i < k { self.data[self.data_ptr + i] } else { 0 };
                assert((self.unread(k as int) + pad)[i as int] == b);
                padded.push(b);
                i = i + 1;
            }
            assert(padded@ =~= self.unread(k as int) + pad);
            assert(padded@.subrange(0, 8) =~= padded@);
            let v = read_raw(&padded, 0, 8, false);
            self.data_ptr = self.size;
            Ok(v as u64)
        } else {
            let v = read_raw(&self.data, self.data_ptr, 8, true);
            self.data_ptr = self.data_ptr + 8;
            Ok(v as u64)
        }
    }
    /// The next byte.
    pub fn consume8(&mut self) -> (r: Result<u8, Error>)
        requires
            old(self).wf(),
        ensures
            final(self).wf(),
            old(self).remaining() < 1 ==> r is Err && *final(self) == *old(self),
            old(self).remaining() >= 1 ==> r == Ok::<u8, Error>(old(self).data@[old(self).data_ptr as int])
                && final(self).advanced(old(self), 1),
    {
        if self.data_ptr < self.size {
            let c = self.data[self.data_ptr];
            self.data_ptr = self.data_ptr + 1;
            return Ok(c);
        }
        Err(Error::new("Nothing left to consume"))
    }

    /// A big-endian integer of the next `n` bytes.
    fn consume_be(&mut self, n: usize) -> (r: Result<u64, Error>)
        requires
            old(self).wf(),
            1 <= n <= 8,
        ensures
            final(self).wf(),
            old(self).remaining() < n ==> r is Err && *final(self) == *old(self),
            old(self).remaining() >= n ==> r == Ok::<u64, Error>(read_value(old(self).unread(n as int), false) as u64)
                && final(self).advanced(old(self), n as int),
    {
        if n <= self.size - self.data_ptr {
            proof {
                reveal_with_fuel(pow256, 9);
                lemma_pow256_mono(n as nat, 8);
            }
            let v = read_raw(&self.data, self.data_ptr, n, false);
            self.data_ptr = self.data_ptr + n;
            return Ok(v as u64);
        }
        Err(Error::new("Nothing left to consume"))
    }

    /// A big-endian `u16`, when two bytes are left.
    pub fn consume16(&mut self) -> (r: Result<u16, Error>)
        requires
            old(self).wf(),
        ensures
            final(self).wf(),
            old(self).remaining() < 2 ==> r is Err && *final(self) == *old(self),
            old(self).remaining() >= 2 ==> r is Ok && r->Ok_0 == read_value(old(self).unread(2), false)
                && final(self).advanced(old(self), 2),
    {
        proof {
            reveal_with_fuel(pow256, 3);
        }
        match self.consume_be(2) {
            Ok(v) => {
                proof {
                    lemma_be_bound(self.data@.subrange(old(self).data_ptr as int, old(self).data_ptr + 2));
                }
                Ok(v as u16)
            },
            Err(e) => Err(e),
        }
    }

    /// A big-endian `u32`, when four bytes are left.
    pub fn consume32(&mut self) -> (r: Result<u32, Error>)
        requires
            old(self).wf(),
        ensures
            final(self).wf(),
            old(self).remaining() < 4 ==> r is Err && *final(self) == *old(self),
            old(self).remaining() >= 4 ==> r is Ok && r->Ok_0 == read_value(old(self).unread(4), false)
                && final(self).advanced(old(self), 4),
    {
        proof {
            reveal_with_fuel(pow256, 5);
        }
        match self.consume_be(4) {
            Ok(v) => {
                proof {
                    lemma_be_bound(self.data@.subrange(old(self).data_ptr as int, old(self).data_ptr + 4));
                }
                Ok(v as u32)
            },
            Err(e) => Err(e),
        }
    }

    /// A big-endian `u64`, when eight bytes are left.
    pub fn consume64(&mut self) -> (r: Result<u64, Error>)
        requires
            old(self).wf(),
        ensures
            final(self).wf(),
            old(self).remaining() < 8 ==> r is Err && *final(self) == *old(self),
            old(self).remaining() >= 8 ==> r is Ok && r->Ok_0 == read_value(old(self).unread(8), false)
                && final(self).advanced(old(self), 8),
    {
        proof {
            reveal_with_fuel(pow256, 9);
        }
        match self.consume_be(8) {
            Ok(v) => {
                proof {
                    lemma_be_bound(self.data@.subrange(old(self).data_ptr as int, old(self).data_ptr + 8));
                }
                Ok(v)
            },
            Err(e) => Err(e),
        }
    }

    /// All bytes that are left.
    pub fn consume_vec(&mut self) -> (r: Result<Vec<u8>, Error>)
        requires
            old(self).wf(),
        ensures
            final(self).wf(),
            r is Ok,
            r->Ok_0@ == old(self).data@.subrange(old(self).data_ptr as int, old(self).size as int),
            final(self).advanced(old(self), old(self).remaining()),
    {
        self.consume_remaining_as_bytes()
    }
}

} // verus!
