//! The `ni` block mutator: splits the input into areas and rewrites each with one
//! of a set of strategies (byte edits, repeats, aimed self-splices, fusion with
//! other corpus entries, number twiddling and delimiter swaps).
use vstd::prelude::*;
use crate::error::Error;
use crate::prng::{in_range, Rng};

verus! {

/// Score at which `sufscore` stops.
pub const AIMAX: usize = 512;
/// Upper bound on the rounds of `aim` and of the number mutation.
pub const AIMROUNDS: usize = 256;
/// How far `aim` advances the landing index.
pub const AIMLEN: usize = 1024;
/// How often `mutate_area` draws a strategy before it gives up.
pub const STRATEGY_DRAWS: usize = 4096;
/// How many steps `twiddle` takes at most.
pub const TWIDDLE_STEPS: usize = 4096;
/// How many areas `ni_area` rewrites at most.
pub const MAX_AREAS: usize = 0xffff_ffff;

/// Appends `data[a..b]` to `out`.
pub fn push_range(out: &mut Vec<u8>, data: &[u8], a: usize, b: usize)
    requires
        a <= b <= data@.len(),
    ensures
        final(out)@ == old(out)@ + data@.subrange(a as int, b as int),
{
    let mut i = a;
    while i < b
        invariant
            a <= i <= b <= data@.len(),
            out@ == old(out)@ + data@.subrange(a as int, i as int),
        decreases b - i,
    {
        out.push(data[i]);
        i = i + 1;
        assert(out@ =~= old(out)@ + data@.subrange(a as int, i as int));
    }
}

/// The score of `a[p..]` against `b[q..]` so far `n`, the previous byte of `a`
/// being `last`: walking both while they differ, 32 for each byte of `a` that
/// differs from the one before it, stopping at a match, at the end of either, or
/// once the score reaches `AIMAX`.
pub open spec fn suffix_score(a: Seq<u8>, b: Seq<u8>, p: int, q: int, n: int, last: u8) -> int
    decreases a.len() - p,
{
    if p < 0 || q < 0 || p >= a.len() || q >= b.len() || n >= AIMAX || a[p] == b[q] {
        n
    } else {
        suffix_score(a, b, p + 1, q + 1, if a[p] != last { n + 32 } else { n }, a[p])
    }
}

/// A score for the common stretch of `a[i..]` and `b[j..]`: 32 for each new
/// differing byte value before the first match, up to `AIMAX`.
pub fn sufscore(a: &[u8], i: usize, b: &[u8], j: usize) -> (r: usize)
    requires
        i <= a@.len(),
        j <= b@.len(),
    ensures
        r == suffix_score(a@, b@, i as int, j as int, 0, 255),
        r <= AIMAX + 32,
{
    let mut n: usize = 0;
    let mut last: u8 = 255;
    let mut p = i;
    let mut q = j;
    while p < a.len() && q < b.len()
        invariant
            i <= p <= a@.len(),
            j <= q <= b@.len(),
            n <= AIMAX + 32,
            suffix_score(a@, b@, i as int, j as int, 0, 255) == suffix_score(
                a@,
                b@,
                p as int,
                q as int,
                n as int,
                last,
            ),
        decreases a@.len() - p,
    {
        let x = a[p];
        if n >= AIMAX || x == b[q] {
            return n;
        }
        if x != last {
            n = n + 32;
        }
        last = x;
        p = p + 1;
        q = q + 1;
    }
    n
}

/// Picks a jump index into `from[..flen]` and a landing index into `to[..tlen]`
/// whose suffixes score best among random probes. When `from` is empty the jump
/// is 0; when `to` is empty the landing is 0 and the jump is `jump`.
pub fn aim(from: &[u8], flen: usize, to: &[u8], tlen: usize, jump: usize, prng: &mut Rng) -> (r: (
    usize,
    usize,
))
    requires
        flen <= from@.len(),
        tlen <= to@.len(),
    ensures
        flen == 0 ==> r.0 == 0,
        flen > 0 && tlen > 0 ==> r.0 < flen,
        tlen == 0 && flen > 0 ==> r.0 == jump,
        tlen > 0 ==> r.1 < tlen,
        tlen == 0 ==> r.1 == 0,
        final(prng).exponential == old(prng).exponential,
{
    if flen == 0 {
        let land = if tlen > 0 { prng.rand_range(0, tlen) } else { 0 };
        return (0, land);
    }
    if tlen == 0 {
        return (jump, 0);
    }
    let mut best_jump = prng.rand_range(0, flen);
    let mut best_land = prng.rand_range(0, tlen);
    let mut best_score: usize = 0;
    let rounds = prng.rand_range(0, AIMROUNDS);
    let mut round: usize = 0;
    while round < rounds
        invariant
            flen <= from@.len(),
            tlen <= to@.len(),
            0 < flen,
            0 < tlen,
            best_jump < flen,
            best_land < tlen,
            prng.exponential == old(prng).exponential,
        decreases rounds - round,
    {
        let mut maxs = AIMLEN;
        let j = prng.rand_range(0, flen);
        let mut l = prng.rand_range(0, tlen);
        while maxs > 0 && l < tlen && from[j] != to[l]
            invariant
                j < flen <= from@.len(),
                tlen <= to@.len(),
                l <= tlen,
            decreases maxs,
        {
            l = l + 1;
            maxs = maxs - 1;
        }
        let score = sufscore(from, j, to, l);
        if score > best_score && l < tlen {
            best_score = score;
            best_jump = j;
            best_land = l;
        }
        round = round + 1;
    }
    (best_jump, best_land)
}

/// A block to fuse with: a suffix of a random corpus entry (of 4096 random bytes
/// when the corpus is empty), or a copy of `data` when the entry is under three
/// bytes.
pub fn random_block(data: &[u8], prng: &mut Rng, corpus: &Vec<Vec<u8>>) -> (r: Vec<u8>)
    ensures
        r@ == data@ || (corpus@.len() > 0 && exists|k: int, st: int|
            0 <= k < corpus@.len() && 0 <= st && r@ == #[trigger] corpus@[k]@.skip(st)) || (
        corpus@.len() == 0 && r@.len() <= 4096),
        final(prng).exponential == old(prng).exponential,
{
    let n = corpus.len();
    let idx = prng.rand_range(0, n);
    let other: Vec<u8> = if idx < n {
        vstd::slice::slice_to_vec(corpus[idx].as_slice())
    } else {
        prng.rand_byte_vec(4096)
    };
    let olen = other.len();
    if olen < 3 {
        return vstd::slice::slice_to_vec(data);
    }
    let start = prng.rand_range(0, olen - 2);
    let mut len = olen - start;
    let dlen = data.len();
    if dlen <= usize::MAX / 4 && len > 4 * dlen {
        len = 4 * dlen;
    }
    len = prng.rand_range(0, len);
    let mut out: Vec<u8> = Vec::new();
    push_range(&mut out, other.as_slice(), len, olen);
    assert(out@ =~= other@.skip(len as int));
    out
}

/// True for an ASCII digit.
pub open spec fn is_digit(b: u8) -> bool {
    48 <= b <= 57
}

/// Where the digit run that starts at `o` ends.
pub open spec fn digits_end(d: Seq<u8>, o: int) -> int
    decreases d.len() - o,
{
    if o < 0 || o >= d.len() || !is_digit(d[o]) {
        o
    } else {
        digits_end(d, o + 1)
    }
}

/// The first digit run at or after `o`, unless a byte with the high bit set or the
/// end comes first.
pub open spec fn seek_from(d: Seq<u8>, o: int) -> Option<(usize, usize)>
    decreases d.len() - o,
{
    if o < 0 || o >= d.len() {
        None
    } else if is_digit(d[o]) {
        Some((o as usize, digits_end(d, o + 1) as usize))
    } else if d[o] & 128 != 0 {
        None
    } else {
        seek_from(d, o + 1)
    }
}

/// From a random offset, the first run of ASCII digits `[start, end)`; none when
/// a byte with the high bit set comes first or no digit follows.
pub fn seek_num(data: &[u8], prng: &mut Rng) -> (r: Option<(usize, usize)>)
    ensures
        data@.len() > 0 ==> r == seek_from(data@, in_range(0, data@.len() as usize, old(prng).draw())),
        r matches Some((s, e)) ==> s < e <= data@.len() && forall|k: int|
            s <= k < e ==> is_digit(#[trigger] data@[k]),
        data@.len() == 0 ==> r is None,
        final(prng).exponential == old(prng).exponential,
{
    let end = data.len();
    if end == 0 {
        return None;
    }
    let mut o = prng.rand_range(0, end);
    let ghost o0 = o as int;
    while o < end && !(data[o] >= 48 && data[o] <= 57)
        invariant
            o <= end == data@.len(),
            o0 < end,
            seek_from(data@, o0) == seek_from(data@, o as int),
            prng.exponential == old(prng).exponential,
            *prng == old(prng).next(),
            o0 == in_range(0, end, old(prng).draw()),
        decreases end - o,
    {
        if data[o] & 128 != 0 {
            return None;
        }
        o = o + 1;
    }
    if o == end {
        return None;
    }
    let ns = o;
    o = o + 1;
    while o < end && data[o] >= 48 && data[o] <= 57
        invariant
            ns < o <= end == data@.len(),
            forall|k: int| ns <= k < o ==> is_digit(#[trigger] data@[k]),
            digits_end(data@, ns + 1) == digits_end(data@, o as int),
        decreases end - o,
    {
        o = o + 1;
    }
    Some((ns, o))
}

/// The value of a run of ASCII digits, most significant first.
pub open spec fn decimal(d: Seq<u8>) -> int
    decreases d.len(),
{
    if d.len() == 0 {
        0
    } else {
        decimal(d.drop_last()) * 10 + (d.last() - 48)
    }
}

/// The decimal value of `data[s..e]`, or none when it does not fit in a `usize`
/// or a byte is no digit.
pub fn parse_digits(data: &[u8], s: usize, e: usize) -> (r: Option<usize>)
    requires
        s <= e <= data@.len(),
    ensures
        r matches Some(v) ==> v == decimal(data@.subrange(s as int, e as int)),
{
    let mut v: usize = 0;
    let mut i = s;
    while i < e
        invariant
            s <= i <= e <= data@.len(),
            v == decimal(data@.subrange(s as int, i as int)),
        decreases e - i,
    {
        let d = data[i].wrapping_sub(48) as usize;
        if d > 9 || v > (usize::MAX - d) / 10 {
            return None;
        }
        assert(v * 10 + d <= usize::MAX) by (nonlinear_arith)
            requires v <= (usize::MAX - d) / 10, d <= 9;
        proof {
            assert(data@.subrange(s as int, i + 1).drop_last() =~= data@.subrange(s as int, i as int));
            assert(data[i as int] - 48 == d);
        }
        v = v * 10 + d;
        i = i + 1;
    }
    Some(v)
}

/// A random walk on a number: each step replaces it, flips one of its low 63 bits
/// or adds a value in `[-2, 2]`, and the walk stops after a step with probability
/// one half.
pub fn twiddle(val: i64, prng: &mut Rng) -> (r: i64)
    ensures
        (r, *final(prng)) == twiddle_walk(val, *old(prng), TWIDDLE_STEPS as nat),
        final(prng).exponential == old(prng).exponential,
{
    let mut v = val;
    let mut steps: usize = 0;
    while steps < TWIDDLE_STEPS
        invariant
            steps <= TWIDDLE_STEPS,
            twiddle_walk(val, *old(prng), TWIDDLE_STEPS as nat) == twiddle_walk(
                v,
                *prng,
                (TWIDDLE_STEPS - steps) as nat,
            ),
            prng.exponential == old(prng).exponential,
        decreases TWIDDLE_STEPS - steps,
    {
        let ghost g = *prng;
        let ghost v0 = v;
        let op = prng.rand_range(0, 3);
        if op == 0 {
            v = prng.rand() as i64;
        } else if op == 1 {
            let bit = prng.rand_range(0, 63) as u64;
            v = v ^ ((1u64 << bit) as i64);
        } else {
            let d = prng.rand_range(0, 5) as i64 - 2;
            v = v.wrapping_add(d);
        }
        assert((v, *prng) == twiddle_step(v0, g));
        steps = steps + 1;
        if prng.bool() {
            return v;
        }
    }
    v
}

/// One step of `twiddle` on `v` from state `g`: replace by a raw draw, flip one of
/// the low 63 bits, or add a value in `[-2, 2]`, chosen by a draw below 3.
pub open spec fn twiddle_step(v: i64, g: Rng) -> (i64, Rng) {
    let op = in_range(0, 3, g.draw());
    let g1 = g.next();
    if op == 0 {
        ((g1.draw() as usize) as i64, g1.next())
    } else if op == 1 {
        (v ^ ((1u64 << (in_range(0, 63, g1.draw()) as usize as u64)) as i64), g1.next())
    } else {
        (v.wrapping_add((in_range(0, 5, g1.draw()) - 2) as i64), g1.next())
    }
}

/// Steps of `twiddle`, at most `left`, each followed by a coin that ends the walk.
pub open spec fn twiddle_walk(v: i64, g: Rng, left: nat) -> (i64, Rng)
    decreases left,
{
    if left == 0 {
        (v, g)
    } else {
        let s = twiddle_step(v, g);
        if s.1.draw() as usize % 2 == 0 {
            (s.0, s.1.next())
        } else {
            twiddle_walk(s.0, s.1.next(), (left - 1) as nat)
        }
    }
}

/// The eight bytes of `v`, least significant first.
pub open spec fn le_bytes(v: i64) -> Seq<u8> {
    Seq::new(8, |k: int| ((v as u64) >> ((8 * k) as u64)) as u8)
}

/// Relies on `i64::to_ne_bytes`: the eight bytes of the value in the machine's
/// byte order.
#[verifier::external_body]
pub(crate) fn native_bytes(v: i64) -> (r: [u8; 8])
    ensures
        r@ == le_bytes(v) || r@ == crate::test_case::rev(le_bytes(v)),
{
    v.to_ne_bytes()
}

/// The delimiter that closes (or opens) `delim`; a newline pairs with itself.
pub fn delim_of(delim: u8) -> (r: Option<u8>)
    ensures
        delim == 60 ==> r == Some(62u8),
        delim == 40 ==> r == Some(41u8),
        delim == 123 ==> r == Some(125u8),
        delim == 91 ==> r == Some(93u8),
        delim == 62 ==> r == Some(60u8),
        delim == 41 ==> r == Some(40u8),
        delim == 125 ==> r == Some(123u8),
        delim == 93 ==> r == Some(91u8),
        delim == 10 ==> r == Some(10u8),
        r is Some <==> (delim == 60 || delim == 40 || delim == 123 || delim == 91 || delim == 62
            || delim == 41 || delim == 125 || delim == 93 || delim == 10),
{
    if delim == 60 {
        Some(62)
    } else if delim == 40 {
        Some(41)
    } else if delim == 123 {
        Some(125)
    } else if delim == 91 {
        Some(93)
    } else if delim == 62 {
        Some(60)
    } else if delim == 41 {
        Some(40)
    } else if delim == 125 {
        Some(123)
    } else if delim == 93 {
        Some(91)
    } else if delim == 10 {
        Some(10)
    } else {
        None
    }
}

/// `[`, `<`, `(` or a newline.
pub open spec fn is_opener(c: u8) -> bool {
    c == 91 || c == 60 || c == 40 || c == 10
}

/// The first `[`, `<`, `(` or newline, with its position.
pub fn drange_start(data: &[u8]) -> (r: Option<(usize, u8)>)
    ensures
        r matches Some((i, c)) ==> i < data@.len() && data@[i as int] == c && (c == 91 || c == 60
            || c == 40 || c == 10) && forall|k: int| 0 <= k < i ==> !is_opener(#[trigger] data@[k]),
        r is None ==> forall|k: int| 0 <= k < data@.len() ==> !is_opener(#[trigger] data@[k]),
{
    let mut i: usize = 0;
    while i < data.len()
        invariant
            i <= data@.len(),
            forall|k: int| 0 <= k < i ==> !is_opener(#[trigger] data@[k]),
        decreases data@.len() - i,
    {
        let c = data[i];
        if c == 91 || c == 60 || c == 40 || c == 10 {
            return Some((i, c));
        }
        i = i + 1;
    }
    None
}

/// Where the delimited range that starts at `data[from]` ends (exclusive), as an
/// offset from `from`: at a close that balances the opens, where with probability
/// two thirds the search goes on for a later balanced close. A byte with the high
/// bit set ends the search without result.
pub fn drange_end(data: &[u8], from: usize, open: u8, close: u8, prng: &mut Rng) -> (r: Option<usize>)
    requires
        from <= data@.len(),
    ensures
        r matches Some(x) ==> 0 < x && from + x <= data@.len(),
        final(prng).exponential == old(prng).exponential,
    decreases data@.len() - from,
{
    let mut depth: i128 = 0;
    let mut i: usize = from;
    while i < data.len()
        invariant
            from <= i <= data@.len(),
            -(i - from) <= depth <= i - from,
            prng.exponential == old(prng).exponential,
        decreases data@.len() - i,
    {
        let c = data[i];
        if c == close {
            depth = depth - 1;
            if depth == 0 {
                if prng.bool_chance(3) {
                    return Some(i + 1 - from);
                }
                let next = drange_end(data, i + 1, open, close, prng);
                return match next {
                    Some(x) => Some(i + 1 + x - from),
                    None => Some(i + 1 - from),
                };
            }
        } else if c == open {
            depth = depth + 1;
        } else if c & 128 > 0 {
            return None;
        }
        i = i + 1;
    }
    None
}

/// The first delimited range of `data`, as `[start, end)`.
pub fn drange(data: &[u8], prng: &mut Rng) -> (r: Option<(usize, usize)>)
    ensures
        r matches Some((s, e)) ==> s < e <= data@.len(),
        final(prng).exponential == old(prng).exponential,
{
    let n = data.len();
    let (start, delim) = match drange_start(data) {
        Some(x) => x,
        None => return None,
    };
    let close = match delim_of(delim) {
        Some(c) => c,
        None => return None,
    };
    match drange_end(data, start, delim, close, prng) {
        Some(e) => Some((start, start + e)),
        None => None,
    }
}

/// Another range opened by `open`, searched from ten random offsets.
pub fn other_drange(data: &[u8], open: u8, prng: &mut Rng) -> (r: Option<(usize, usize)>)
    ensures
        r matches Some((s, e)) ==> s < e <= data@.len(),
        final(prng).exponential == old(prng).exponential,
{
    let close = match delim_of(open) {
        Some(c) => c,
        None => return None,
    };
    if data.len() == 0 {
        return None;
    }
    let mut attempt: usize = 0;
    while attempt < 10
        invariant
            data@.len() > 0,
            prng.exponential == old(prng).exponential,
        decreases 10 - attempt,
    {
        let start = prng.rand_range(0, data.len());
        let mut i = start;
        while i < data.len()
            invariant
                start <= i <= data@.len(),
                prng.exponential == old(prng).exponential,
            decreases data@.len() - i,
        {
            if data[i] == open {
                match drange_end(data, i, open, close, prng) {
                    Some(end) => return Some((i, i + end)),
                    None => {},
                }
            }
            i = i + 1;
        }
        attempt = attempt + 1;
    }
    None
}

/// `data` with `data[a..b]` cut out.
pub open spec fn joined(data: Seq<u8>, a: int, b: int) -> Seq<u8> {
    data.take(a) + data.skip(b)
}

/// `piece` is `data` with `n` bytes put in at `pos`.
pub open spec fn inserted(data: Seq<u8>, piece: Seq<u8>, pos: int, n: int) -> bool {
    &&& 0 <= pos <= data.len()
    &&& piece.len() == data.len() + n
    &&& piece.take(pos) == data.take(pos)
    &&& piece.skip(pos + n) == data.skip(pos)
}

/// `piece` starts with `data[..p]` and ends with `data[q..]`.
pub open spec fn framed(data: Seq<u8>, piece: Seq<u8>, p: int, q: int) -> bool {
    &&& 0 <= p <= data.len()
    &&& 0 <= q <= data.len()
    &&& piece.len() >= p + (data.len() - q)
    &&& piece.take(p) == data.take(p)
    &&& piece.skip(piece.len() - (data.len() - q)) == data.skip(q)
}

/// What strategy `r` of `mutate_area` makes of `data`:
/// 0: one byte inserted; 1: one byte deleted; 2-3: an inner range dropped;
/// 4-5: a substring repeated after `data[..a]`, then `data[a..]`; 6: up to 1023
/// random bytes inserted; 7-12: an aimed self-splice `data[..j] ++ data[l..]`;
/// 13-21: `data[..j]`, a block of another entry, then `data[l..]`; 22-23: up to
/// 818 bytes of `data` inserted; 24: a range of at least two bytes overwritten
/// with bytes of `data`; 25-28: a digit run replaced by eight bytes; 29-34: a
/// delimited range swapped with another, between `data[..s]` and `data[e..]`.
/// For nonempty `data` the piece is never empty.
pub open spec fn area_shape(r: int, data: Seq<u8>, piece: Seq<u8>) -> bool {
    &&& data.len() > 0 ==> piece.len() > 0
    &&& if r == 0 {
        exists|pos: int| #[trigger] inserted(data, piece, pos, 1)
    } else if r == 1 {
        exists|pos: int| 0 <= pos && pos + 1 < data.len() && piece == #[trigger] joined(data, pos, pos + 1)
    } else if r <= 3 {
        exists|a: int, b: int| 0 <= a < b < data.len() && piece == #[trigger] joined(data, a, b)
    } else if r <= 5 {
        exists|a: int| a < data.len() && #[trigger] framed(data, piece, a, a)
    } else if r == 6 {
        exists|pos: int, n: int| 0 <= n < 1024 && #[trigger] inserted(data, piece, pos, n)
    } else if r <= 12 {
        exists|j: int, l: int| 0 <= j < data.len() && 0 <= l < data.len() && piece == #[trigger] joined(
            data,
            j,
            l,
        )
    } else if r <= 21 {
        exists|j: int, l: int| j < data.len() && l < data.len() && #[trigger] framed(data, piece, j, l)
    } else if r <= 23 {
        exists|pos: int, n: int| 0 <= n < 819 && #[trigger] inserted(data, piece, pos, n)
    } else if r == 24 {
        exists|a: int, b: int|
            a + 2 <= b && piece.len() == data.len() && #[trigger] framed(data, piece, a, b)
    } else if r <= 28 {
        exists|ns: int, ne: int|
            ns < ne && piece.len() == data.len() - (ne - ns) + 8 && #[trigger] framed(data, piece, ns, ne)
    } else {
        exists|a: int, e: int| #[trigger] framed(data, piece, a, e)
    }
}

/// Appending keeps a prefix.
proof fn lemma_keep_prefix(a: Seq<u8>, b: Seq<u8>, d: Seq<u8>, p: int)
    requires
        0 <= p <= a.len(),
        a.take(p) == d.take(p),
    ensures
        (a + b).take(p) == d.take(p),
{
    assert((a + b).take(p) =~= a.take(p));
}

/// A piece that starts with `data[..p]` and then gets `data[q..]` is framed.
proof fn lemma_framed(a: Seq<u8>, data: Seq<u8>, p: int, q: int)
    requires
        0 <= p <= a.len(),
        p <= data.len(),
        0 <= q <= data.len(),
        a.take(p) == data.take(p),
    ensures
        framed(data, a + data.subrange(q, data.len() as int), p, q),
{
    let piece = a + data.subrange(q, data.len() as int);
    assert(piece.take(p) =~= data.take(p));
    assert(piece.skip(piece.len() - (data.len() - q)) =~= data.skip(q));
}

/// A copy of `data[a..b]`.
fn sub_vec(data: &[u8], a: usize, b: usize) -> (r: Vec<u8>)
    requires
        a <= b <= data@.len(),
    ensures
        r@ == data@.subrange(a as int, b as int),
{
    let mut out: Vec<u8> = Vec::new();
    push_range(&mut out, data, a, b);
    assert(out@ =~= data@.subrange(a as int, b as int));
    out
}

/// One strategy of `mutate_area`, chosen by `r` in `[0, 35)`; none when the
/// strategy does not apply to `data`, so that another is drawn.
#[verifier::rlimit(100)]
#[verifier::spinoff_prover]
fn area_strategy(data: &[u8], r: usize, prng: &mut Rng, corpus: &Vec<Vec<u8>>) -> (res: Option<
    Vec<u8>,
>)
    ensures
        res matches Some(p) ==> area_shape(r as int, data@, p@),
        r == 0 ==> res is Some,
        final(prng).exponential == old(prng).exponential,
{
    let end = data.len();
    let mut out: Vec<u8> = Vec::new();
    if r == 0 {
        // Insert one random byte.
        let pos = prng.rand_range(0, end);
        push_range(&mut out, data, 0, pos);
        let b = prng.rand_byte_vec(1);
        push_range(&mut out, b.as_slice(), 0, 1);
        push_range(&mut out, data, pos, end);
        assert(out@.take(pos as int) =~= data@.take(pos as int));
        assert(out@.skip(pos + 1) =~= data@.skip(pos as int));
        assert(inserted(data@, out@, pos as int, 1));
    } else if r == 1 {
        // Delete one byte.
        let pos = prng.rand_range(0, end);
        if pos + 1 >= end {
            return None;
        }
        push_range(&mut out, data, 0, pos);
        push_range(&mut out, data, pos + 1, end);
        assert(out@ =~= joined(data@, pos as int, pos + 1));
    } else if r <= 3 {
        // Drop an inner range.
        if end <= 1 {
            return None;
        }
        let (a, b) = prng.rand_two(end);
        push_range(&mut out, data, 0, a);
        push_range(&mut out, data, b, end);
        assert(out@ =~= joined(data@, a as int, b as int));
        assert(area_shape(r as int, data@, out@));
    } else if r <= 5 {
        // Repeat a substring.
        if end < 2 {
            return None;
        }
        let mut n: usize = 8;
        while n < 20000 && prng.bool()
            invariant
                8 <= n < 40000,
                prng.exponential == old(prng).exponential,
            decreases 40000 - n,
        {
            n = n * 2;
        }
        n = prng.rand_range(1, n + 3);
        let (a, b) = prng.rand_two(end);
        let mut len = b - a;
        push_range(&mut out, data, 0, a);
        assert(out@.take(a as int) =~= data@.take(a as int));
        if len > 0x800_0000 / n {
            let shorter = prng.rand_range(0, 1026);
            if shorter < len {
                len = shorter;
            }
        }
        let mut k: usize = 0;
        while k < n
            invariant
                a + len <= end == data@.len(),
                a < end,
                out@.len() >= a,
                out@.take(a as int) == data@.take(a as int),
            decreases n - k,
        {
            let ghost prev = out@;
            push_range(&mut out, data, a, a + len);
            proof { lemma_keep_prefix(prev, data@.subrange(a as int, a + len), data@, a as int); }
            k = k + 1;
        }
        let ghost prev = out@;
        push_range(&mut out, data, a, end);
        proof {
            lemma_framed(prev, data@, a as int, a as int);
            assert(framed(data@, out@, a as int, a as int));
            assert(area_shape(r as int, data@, out@));
        }
    } else if r == 6 {
        // Insert random bytes.
        let pos = prng.rand_range(0, end);
        let n = prng.rand_range(0, 1024);
        let random_data = prng.rand_byte_vec(n);
        push_range(&mut out, data, 0, pos);
        push_range(&mut out, random_data.as_slice(), 0, n);
        push_range(&mut out, data, pos, end);
        assert(out@.take(pos as int) =~= data@.take(pos as int));
        assert(out@.skip(pos + n) =~= data@.skip(pos as int));
        assert(inserted(data@, out@, pos as int, n as int));
    } else if r <= 12 {
        // Aimed self-splice.
        if end < 5 {
            return None;
        }
        let (j, l) = aim(data, end, data, end, 0, prng);
        push_range(&mut out, data, 0, j);
        push_range(&mut out, data, l, end);
        assert(out@ =~= joined(data@, j as int, l as int));
    } else if r <= 21 {
        // Aimed fusion with a block of another entry.
        if end < 8 {
            return None;
        }
        let rchk = random_block(data, prng, corpus);
        let rlen = rchk.len();
        let (j, _l) = aim(data, end / 2, rchk.as_slice(), rlen / 2, 0, prng);
        push_range(&mut out, data, 0, j);
        assert(out@.take(j as int) =~= data@.take(j as int));
        let buff = sub_vec(rchk.as_slice(), rlen / 2, rlen);
        let tail = sub_vec(data, j, end);
        let (j2, l2) = aim(buff.as_slice(), buff.len(), tail.as_slice(), tail.len(), j, prng);
        let j2 = if j2 <= buff.len() { j2 } else { buff.len() };
        let ghost p0 = out@;
        push_range(&mut out, buff.as_slice(), 0, j2);
        proof { lemma_keep_prefix(p0, buff@.subrange(0, j2 as int), data@, j as int); }
        let ghost p1 = out@;
        push_range(&mut out, data, l2, end);
        proof {
            lemma_framed(p1, data@, j as int, l2 as int);
            assert(framed(data@, out@, j as int, l2 as int));
            assert(area_shape(r as int, data@, out@));
        }
    } else if r <= 23 {
        // Insert bytes drawn from random positions.
        if end < 2 {
            return None;
        }
        let n = prng.rand_range(2, 4096) % (4096 / 5);
        let pos = prng.rand_range(0, end);
        let mut q = prng.rand_range(2, end);
        push_range(&mut out, data, 0, pos);
        assert(out@.take(pos as int) =~= data@.take(pos as int));
        let mut k: usize = 0;
        while k < n
            invariant
                2 <= end == data@.len(),
                2 <= q <= end,
                pos < end,
                k <= n,
                out@.len() == pos + k,
                out@.take(pos as int) == data@.take(pos as int),
                prng.exponential == old(prng).exponential,
            decreases n - k,
        {
            let ghost prev = out@;
            push_range(&mut out, data, q - 1, q);
            proof { lemma_keep_prefix(prev, data@.subrange(q - 1, q as int), data@, pos as int); }
            q = prng.rand_range(2, end);
            k = k + 1;
        }
        let ghost prev = out@;
        push_range(&mut out, data, pos, end);
        proof {
            lemma_framed(prev, data@, pos as int, pos as int);
            assert(inserted(data@, out@, pos as int, n as int));
            assert(area_shape(r as int, data@, out@));
        }
    } else if r == 24 {
        // Overwrite a range with bytes drawn from random positions.
        if end < 2 {
            return None;
        }
        let a = prng.rand_range(0, end - 2);
        let mut b = a + 2;
        if prng.bool() {
            b = b.saturating_add(prng.rand_range(0, 32));
        } else {
            let room = end - a - 2;
            b = b + prng.rand_range(0, if room < 4094 { room } else { 4094 });
        }
        if b > end {
            b = end;
        }
        push_range(&mut out, data, 0, a);
        assert(out@.take(a as int) =~= data@.take(a as int));
        let mut k = a;
        while k < b
            invariant
                a <= k <= b <= end == data@.len(),
                out@.len() == k,
                out@.take(a as int) == data@.take(a as int),
                prng.exponential == old(prng).exponential,
            decreases b - k,
        {
            let q = prng.rand_range(0, end);
            let ghost prev = out@;
            push_range(&mut out, data, q, q + 1);
            proof { lemma_keep_prefix(prev, data@.subrange(q as int, q + 1), data@, a as int); }
            k = k + 1;
        }
        let ghost prev = out@;
        if end > b {
            push_range(&mut out, data, b, end);
        } else {
            assert(out@ =~= prev + data@.subrange(b as int, end as int));
        }
        proof {
            lemma_framed(prev, data@, a as int, b as int);
            assert(framed(data@, out@, a as int, b as int));
            assert(area_shape(r as int, data@, out@));
        }
    } else if r <= 28 {
        // Twiddle a number.
        if end < 2 {
            return None;
        }
        let rounds = prng.rand_range(0, AIMROUNDS);
        let mut k: usize = 0;
        while k < rounds
            invariant
                end == data@.len(),
                24 < r <= 28,
                prng.exponential == old(prng).exponential,
            decreases rounds - k,
        {
            if let Some((ns, ne)) = seek_num(data, prng) {
                if let Some(num) = parse_digits(data, ns, ne) {
                    let mut piece: Vec<u8> = Vec::new();
                    push_range(&mut piece, data, 0, ns);
                    assert(piece@.take(ns as int) =~= data@.take(ns as int));
                    let twid = twiddle(num as i64, prng);
                    let raw = native_bytes(twid);
                    let ghost p0 = piece@;
                    push_range(&mut piece, &raw, 0, 8);
                    proof { lemma_keep_prefix(p0, raw@.subrange(0, 8), data@, ns as int); }
                    let ghost p1 = piece@;
                    push_range(&mut piece, data, ne, end);
                    proof {
                        lemma_framed(p1, data@, ns as int, ne as int);
                        assert(framed(data@, piece@, ns as int, ne as int));
                    }
                    return Some(piece);
                }
            }
            k = k + 1;
        }
        // No number found: this strategy does not apply.
        return None;
    } else {
        // Swap two ranges opened by the same delimiter.
        let (s1, e1) = match drange(data, prng) {
            Some(x) => x,
            None => return None,
        };
        let (s2, e2) = match other_drange(data, data[s1], prng) {
            Some(x) => x,
            None => return None,
        };
        push_range(&mut out, data, 0, s1);
        assert(out@.take(s1 as int) =~= data@.take(s1 as int));
        let ghost p0 = out@;
        push_range(&mut out, data, s2, e2);
        proof { lemma_keep_prefix(p0, data@.subrange(s2 as int, e2 as int), data@, s1 as int); }
        if s2 > e1 {
            let ghost p1 = out@;
            push_range(&mut out, data, e1, s2);
            proof { lemma_keep_prefix(p1, data@.subrange(e1 as int, s2 as int), data@, s1 as int); }
        }
        let ghost p2 = out@;
        push_range(&mut out, data, s1, e1);
        proof { lemma_keep_prefix(p2, data@.subrange(s1 as int, e1 as int), data@, s1 as int); }
        let ghost p3 = out@;
        push_range(&mut out, data, e2, end);
        proof {
            lemma_framed(p3, data@, s1 as int, e2 as int);
            assert(framed(data@, out@, s1 as int, e2 as int));
            assert(out@.len() > 0);
            assert(area_shape(r as int, data@, out@));
        }
    }
    Some(out)
}

/// True when a slice and a vector hold the same bytes.
fn same_bytes(a: &[u8], b: &Vec<u8>) -> (r: bool)
    ensures
        r == (a@ == b@),
{
    if a.len() != b.len() {
        return false;
    }
    let mut i: usize = 0;
    while i < a.len()
        invariant
            a@.len() == b@.len(),
            i <= a@.len(),
            forall|k: int| 0 <= k < i ==> a@[k] == b@[k],
        decreases a@.len() - i,
    {
        if a[i] != b[i] {
            return false;
        }
        i = i + 1;
    }
    assert(a@ =~= b@);
    true
}

/// Rewrites `data` with one randomly drawn strategy and appends the result to
/// `out`. Strategies that do not apply, or that would give `data` back unchanged,
/// are drawn again; after `STRATEGY_DRAWS` draws one random byte is inserted.
pub fn mutate_area(data: &[u8], out: &mut Vec<u8>, prng: &mut Rng, corpus: &Vec<Vec<u8>>)
    ensures
        final(out)@.len() > old(out)@.len(),
        final(out)@.take(old(out)@.len() as int) == old(out)@,
        final(out)@.skip(old(out)@.len() as int) != data@,
        exists|r: int|
            0 <= r < 35 && #[trigger] area_shape(r, data@, final(out)@.skip(old(out)@.len() as int)),
        final(prng).exponential == old(prng).exponential,
{
    let mut draws: usize = 0;
    while draws < STRATEGY_DRAWS
        invariant
            prng.exponential == old(prng).exponential,
            out@ == old(out)@,
        decreases STRATEGY_DRAWS - draws,
    {
        let r = prng.rand_range(0, 35);
        if let Some(piece) = area_strategy(data, r, prng, corpus) {
            if !same_bytes(data, &piece) {
                assert(piece@.len() > 0) by {
                    if piece@.len() == 0 && data@.len() == 0 {
                        assert(piece@ =~= data@);
                    }
                }
                push_range(out, piece.as_slice(), 0, piece.len());
                assert(out@.take(old(out)@.len() as int) =~= old(out)@);
                assert(out@.skip(old(out)@.len() as int) =~= piece@);
                assert(area_shape(r as int, data@, out@.skip(old(out)@.len() as int)));
                return;
            }
        }
        draws = draws + 1;
    }
    let fallback = area_strategy(data, 0, prng, corpus);
    if let Some(piece) = fallback {
        assert(piece@.len() == data@.len() + 1) by {
            let pos = choose|pos: int| #[trigger] inserted(data@, piece@, pos, 1);
        }
        push_range(out, piece.as_slice(), 0, piece.len());
        assert(out@.take(old(out)@.len() as int) =~= old(out)@);
        assert(out@.skip(old(out)@.len() as int) =~= piece@);
        assert(area_shape(0, data@, out@.skip(old(out)@.len() as int)));
    }
}

/// Splits `data` into areas, each with a share of the budget `n`, and rewrites
/// each area of under 256 bytes, or with a budget of one, with `mutate_area`; the
/// results are appended to `out` in the order of the areas.
pub fn ni_area(data: &[u8], n: usize, out: &mut Vec<u8>, prng: &mut Rng, corpus: &Vec<Vec<u8>>)
    ensures
        final(out)@.len() >= old(out)@.len(),
        (n == 1 || data@.len() < 256) && data@.len() > 0 ==> final(out)@.len() > old(out)@.len(),
        (n == 1 || data@.len() < 256) ==> final(out)@.skip(old(out)@.len() as int) != data@,
        final(out)@.take(old(out)@.len() as int) == old(out)@,
        final(prng).exponential == old(prng).exponential,
{
    let len = data.len();
    let mut stack: Vec<(usize, usize, usize)> = Vec::new();
    stack.push((0, len, n));
    let mut areas: usize = 0;
    while stack.len() > 0 && areas < MAX_AREAS
        invariant
            len == data@.len(),
            forall|k: int| 0 <= k < stack@.len() ==> (#[trigger] stack@[k]).0 <= stack@[k].1 <= len,
            out@.len() >= old(out)@.len(),
            out@.take(old(out)@.len() as int) == old(out)@,
            prng.exponential == old(prng).exponential,
            areas == 0 ==> stack@ == seq![(0usize, len, n)] && out@ == old(out)@,
            areas > 0 && (n == 1 || len < 256) && len > 0 ==> out@.len() > old(out)@.len(),
            areas > 0 && (n == 1 || len < 256) ==> stack@.len() == 0 && out@.skip(
                old(out)@.len() as int,
            ) != data@,
        decreases MAX_AREAS - areas,
    {
        let (s, e, budget) = match stack.pop() {
            Some(x) => x,
            None => (0, 0, 1),
        };
        let area_len = e - s;
        if budget == 1 || area_len < 256 {
            let area = sub_vec(data, s, e);
            let ghost before = out@;
            mutate_area(area.as_slice(), out, prng, corpus);
            assert(out@.take(old(out)@.len() as int) =~= before.take(old(out)@.len() as int));
            proof {
                if areas == 0 && (n == 1 || len < 256) {
                    assert(area@ =~= data@);
                    assert(before == old(out)@);
                }
            }
        } else {
            let mut split = prng.rand_range(0, area_len);
            let mut tries: usize = 0;
            while split == 1 && tries < AIMROUNDS
                invariant
                    split < area_len,
                    prng.exponential == old(prng).exponential,
                decreases AIMROUNDS - tries,
            {
                split = prng.rand_range(0, area_len);
                tries = tries + 1;
            }
            let rng_max = prng.rand_range(0, budget);
            let new_n = prng.rand_range(0, budget - rng_max);
            stack.push((s + split, e, new_n));
            stack.push((s, s + split, budget - new_n));
        }
        areas = areas + 1;
    }
}

/// The `ni` mutation of the first `data_sz` bytes of `data`: with probability one
/// quarter a single area, else a budget of two plus a value below `data_sz / 2^20`.
pub fn ni_mutate(data: &[u8], data_sz: usize, prng: &mut Rng, corpus: &Vec<Vec<u8>>) -> (r: Result<
    Vec<u8>,
    Error,
>)
    requires
        data_sz <= data@.len(),
    ensures
        r is Ok,
        0 < data_sz < 256 ==> r->Ok_0@.len() > 0,
        data_sz < 256 ==> r->Ok_0@ != data@.take(data_sz as int),
        final(prng).exponential == old(prng).exponential,
{
    let mut res: Vec<u8> = Vec::new();
    let n = if prng.rand() & 3 == 1 {
        1
    } else {
        2usize.saturating_add(prng.rand_range(0, data_sz >> 20usize))
    };
    let input = sub_vec(data, 0, data_sz);
    ni_area(input.as_slice(), n, &mut res, prng, corpus);
    assert(res@.skip(0) =~= res@);
    assert(input@ =~= data@.take(data_sz as int));
    Ok(res)
}

} // verus!
