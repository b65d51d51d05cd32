//! The byte-level mutators. Each takes the test case's bytes and the generator,
//! and fails, leaving the bytes as they were, when the input is too short.
use vstd::prelude::*;
use crate::error::Error;
use crate::prng::{in_range, Rng};
use crate::test_case::{pow256, read_raw, read_value, rev, lemma_pow256_mono};
use crate::magic::{MAGIC_16, MAGIC_32, MAGIC_64, MAGIC_8};

verus! {

/// Swaps two bytes.
fn swap_bytes_at(data: &mut Vec<u8>, a: usize, b: usize)
    requires
        a < old(data)@.len(),
        b < old(data)@.len(),
    ensures
        final(data)@ == old(data)@.update(a as int, old(data)@[b as int]).update(
            b as int,
            old(data)@[a as int],
        ),
        final(data)@.to_multiset() == old(data)@.to_multiset(),
{
    let va = data[a];
    let vb = data[b];
    data[a] = vb;
    data[b] = va;
    proof {
        broadcast use vstd::seq_lib::group_to_multiset_ensures;

        let s = old(data)@;
        let s1 = s.update(a as int, vb);
        vstd::seq_lib::to_multiset_update(s, a as int, vb);
        vstd::seq_lib::to_multiset_update(s1, b as int, va);
        assert(s1.to_multiset().insert(va).remove(s1[b as int]) =~= s.to_multiset());
    }
}

/// A random index below `len - exclude`, biased towards the start (`rand_exp`).
pub fn random_index(len: usize, exclude: usize, prng: &mut Rng) -> (r: usize)
    requires
        exclude <= len,
    ensures
        exclude < len ==> r < len - exclude,
        exclude == len ==> r == 0,
        final(prng).exponential == old(prng).exponential,
{
    prng.rand_exp(0, len - exclude)
}

/// Shuffles a window of 2 to 8 bytes at a random offset.
pub fn shuffle_bytes(data: &mut Vec<u8>, prng: &mut Rng) -> (r: Result<(), Error>)
    ensures
        old(data)@.len() < 2 <==> r is Err,
        r is Err ==> final(data)@ == old(data)@,
        final(data)@.to_multiset() == old(data)@.to_multiset(),
        final(data)@.len() == old(data)@.len(),
        r is Ok ==> exists|start: int, amount: int|
            2 <= amount <= 8 && 0 <= start && #[trigger] same_outside(
                final(data)@,
                old(data)@,
                start,
                start + amount,
            ),
        final(prng).exponential == old(prng).exponential,
{
    let size = data.len();
    if size < 2 {
        return Err(Error::new("Nothing to shuffle"));
    }
    let upper = if size < 8 { size } else { 8 };
    let amount = prng.rand_range(1, upper) + 1;
    let start = prng.rand_range(0, size - amount);
    let mut window: Vec<u8> = Vec::with_capacity(amount);
    let mut i: usize = 0;
    while i < amount
        invariant
            i <= amount,
            start + amount <= size,
            size == data@.len(),
            window@ == data@.subrange(start as int, start + i),
        decreases amount - i,
    {
        window.push(data[start + i]);
        i = i + 1;
    }
    let ghost before = data@;
    let ghost w0 = window@;
    prng.shuffle(window.as_mut_slice());
    let mut j: usize = 0;
    while j < amount
        invariant
            j <= amount,
            window@.len() == amount,
            start + amount <= size,
            size == data@.len(),
            size == before.len(),
            forall|k: int|
                0 <= k < size ==> #[trigger] data@[k] == (if start <= k < start + j {
                    window@[k - start]
                } else {
                    before[k]
                }),
        decreases amount - j,
    {
        data[start + j] = window[j];
        j = j + 1;
    }
    proof {
        broadcast use vstd::seq_lib::group_to_multiset_ensures;

        let pre = before.subrange(0, start as int);
        let post = before.subrange(start + amount, size as int);
        assert(w0 == before.subrange(start as int, start + amount));
        assert(before =~= pre + w0 + post);
        assert(data@ =~= pre + window@ + post);
        assert(same_outside(data@, old(data)@, start as int, start + amount));
        vstd::seq_lib::lemma_multiset_commutative(pre, w0);
        vstd::seq_lib::lemma_multiset_commutative(pre + w0, post);
        vstd::seq_lib::lemma_multiset_commutative(pre, window@);
        vstd::seq_lib::lemma_multiset_commutative(pre + window@, post);
    }
    Ok(())
}

/// Removes one byte with probability one half; else `count` bytes one at a time
/// at random positions, where `count` is the length below 20 bytes and otherwise
/// `length / factor`, at most 100.
pub fn erase_bytes(data: &mut Vec<u8>, factor: usize, prng: &mut Rng) -> (r: Result<(), Error>)
    requires
        1 <= factor,
    ensures
        old(data)@.len() == 0 <==> r is Err,
        r is Err ==> final(data)@ == old(data)@,
        r is Ok ==> final(data)@.len() < old(data)@.len(),
        final(prng).exponential == old(prng).exponential,
{
    let size = data.len();
    if size == 0 {
        return Err(Error::new("Nothing to delete"));
    }
    if prng.bool() {
        let idx = random_index(data.len(), 0, prng);
        data.remove(idx);
    } else {
        let count = if size < 20 {
            size
        } else {
            let q = size / factor;
            if q < 100 { q } else { 100 }
        };
        let mut k: usize = 0;
        while k < count && data.len() > 0
            invariant
                data@.len() <= size,
                k > 0 ==> data@.len() < size,
                k == 0 ==> data@.len() == size,
                size > 0,
                prng.exponential == old(prng).exponential,
            decreases count - k,
        {
            let idx = random_index(data.len(), 0, prng);
            data.remove(idx);
            k = k + 1;
        }
        if k == 0 {
            let idx = random_index(data.len(), 0, prng);
            data.remove(idx);
        }
    }
    Ok(())
}

/// Inserts one byte with probability one half; else a run of `count` copies of
/// it, `count` as for `erase_bytes`.
pub fn insert_bytes(data: &mut Vec<u8>, to_insert: u8, factor: usize, prng: &mut Rng) -> (r:
    Result<(), Error>)
    requires
        1 <= factor,
    ensures
        old(data)@.len() == 0 <==> r is Err,
        r is Err ==> final(data)@ == old(data)@,
        r is Ok ==> exists|idx: int, k: int|
            0 <= idx < old(data)@.len() && 1 <= k <= old(data)@.len() && final(data)@ == old(
                data,
            )@.take(idx) + #[trigger] repeated(to_insert, k) + #[trigger] old(data)@.skip(idx),
        final(prng).exponential == old(prng).exponential,
{
    let size = data.len();
    if size == 0 {
        return Err(Error::new("Nothing to insert into"));
    }
    let idx = random_index(size, 0, prng);
    if prng.bool() {
        let idx2 = random_index(size, 0, prng);
        data.insert(idx2, to_insert);
        assert(data@ =~= old(data)@.take(idx2 as int) + repeated(to_insert, 1) + old(
            data,
        )@.skip(idx2 as int));
    } else {
        let count = if size < 20 {
            size
        } else {
            let q = size / factor;
            if q < 100 { q } else { 100 }
        };
        let count = if count == 0 { 1 } else { count };
        let mut k: usize = 0;
        while k < count
            invariant
                idx < size,
                1 <= count <= size,
                size == old(data)@.len(),
                k <= count,
                data@ == old(data)@.take(idx as int) + repeated(to_insert, k as int) + old(
                    data,
                )@.skip(idx as int),
            decreases count - k,
        {
            let ghost before = data@;
            assert(before.len() == size + k);
            data.insert(idx, to_insert);
            k = k + 1;
            assert(data@ =~= old(data)@.take(idx as int) + repeated(to_insert, k as int)
                + old(data)@.skip(idx as int));
        }
        assert(data@ == old(data)@.take(idx as int) + repeated(to_insert, count as int) + old(
            data,
        )@.skip(idx as int));
    }
    Ok(())
}

/// `k` copies of `b`.
pub open spec fn repeated(b: u8, k: int) -> Seq<u8> {
    Seq::new(k as nat, |j: int| b)
}

/// Flips one random bit of one random byte.
pub fn change_bit(data: &mut Vec<u8>, prng: &mut Rng) -> (r: Result<(), Error>)
    ensures
        old(data)@.len() == 0 <==> r is Err,
        r is Err ==> final(data)@ == old(data)@,
        r is Ok ==> exists|i: int, bit: u8|
            0 <= i < old(data)@.len() && bit < 8 && #[trigger] final(data)@ == old(data)@.update(
                i,
                old(data)@[i] ^ (1u8 << bit),
            ),
        final(prng).exponential == old(prng).exponential,
{
    if data.len() == 0 {
        return Err(Error::new("Nothing to change"));
    }
    let idx = random_index(data.len(), 0, prng);
    let bit = prng.rand_range(0, 8) as u8;
    let v = data[idx] ^ (1u8 << bit);
    data[idx] = v;
    Ok(())
}

/// Replaces one random byte by a different one: a random value, or the byte XOR a
/// nonzero random value.
pub fn change_byte(data: &mut Vec<u8>, prng: &mut Rng) -> (r: Result<(), Error>)
    ensures
        old(data)@.len() == 0 <==> r is Err,
        r is Err ==> final(data)@ == old(data)@,
        r is Ok ==> exists|i: int, v: u8|
            0 <= i < old(data)@.len() && v != old(data)@[i] && #[trigger] final(data)@ == old(
                data,
            )@.update(i, v),
        final(prng).exponential == old(prng).exponential,
{
    if data.len() == 0 {
        return Err(Error::new("Nothing to change"));
    }
    let idx = random_index(data.len(), 0, prng);
    let byte = data[idx];
    let r = prng.rand_byte();
    let v = if prng.bool() {
        if r == byte { r + 1 } else { r }
    } else if r == 0 {
        byte ^ 1
    } else {
        byte ^ r
    };
    assert(v != byte) by (bit_vector)
        requires
            v == byte ^ 1 || (v == byte ^ r && r != 0) || (v == r + 1 && r == byte) || (v == r && r
                != byte),
    ;
    data[idx] = v;
    Ok(())
}

/// Inverts every bit of one random byte.
pub fn negate_byte(data: &mut Vec<u8>, prng: &mut Rng) -> (r: Result<(), Error>)
    ensures
        old(data)@.len() == 0 <==> r is Err,
        r is Err ==> final(data)@ == old(data)@,
        r is Ok ==> exists|i: int|
            0 <= i < old(data)@.len() && #[trigger] final(data)@ == old(data)@.update(
                i,
                !old(data)@[i],
            ),
        final(prng).exponential == old(prng).exponential,
{
    if data.len() == 0 {
        return Err(Error::new("Nothing to change"));
    }
    let idx = random_index(data.len(), 0, prng);
    let v = !data[idx];
    data[idx] = v;
    Ok(())
}

/// `new` is `old` with the `w` bytes at `idx` in reverse order.
pub open spec fn reversed_window(old: Seq<u8>, new: Seq<u8>, idx: int, w: int) -> bool {
    &&& same_outside(new, old, idx, idx + w)
    &&& forall|k: int| 0 <= k < w ==> #[trigger] new[idx + k] == old[idx + w - 1 - k]
}

/// Reverses a block of 2, 4 or 8 bytes (fewer at the end) at a random offset.
pub fn swap_endianness(data: &mut Vec<u8>, prng: &mut Rng) -> (r: Result<(), Error>)
    ensures
        old(data)@.len() < 2 ==> r is Err,
        old(data)@.len() >= 8 ==> r is Ok,
        r is Err ==> final(data)@ == old(data)@,
        r is Ok ==> exists|idx: int, w: int|
            2 <= w <= 8 && 0 <= idx && idx + w <= old(data)@.len() && #[trigger] reversed_window(
                old(data)@,
                final(data)@,
                idx,
                w,
            ),
        final(data)@.to_multiset() == old(data)@.to_multiset(),
        final(data)@.len() == old(data)@.len(),
        final(prng).exponential == old(prng).exponential,
{
    let widths: [usize; 3] = [2, 4, 8];
    let mut width = prng.pick(&widths);
    let size = data.len();
    if size < width {
        return Err(Error::new("Mutation size > test case"));
    }
    let idx = random_index(size, 1, prng);
    if width > size - idx {
        width = size - idx;
    }
    assert(2 <= width <= 8);
    let mut i: usize = 0;
    while i < width / 2
        invariant
            idx + width <= size,
            2 <= width <= 8,
            i <= width / 2,
            size == data@.len(),
            size == old(data)@.len(),
            data@.to_multiset() == old(data)@.to_multiset(),
            same_outside(data@, old(data)@, idx as int, idx + width),
            forall|k: int|
                0 <= k < width ==> #[trigger] data@[idx + k] == if k < i || k >= width - i {
                    old(data)@[idx + width - 1 - k]
                } else {
                    old(data)@[idx + k]
                },
        decreases width / 2 - i,
    {
        let ghost prev = data@;
        let ghost i0 = i as int;
        proof {
            let j0 = width - 1 - i0;
            assert(prev[idx + j0] == old(data)@[idx + j0]);
            assert(prev[idx + i0] == old(data)@[idx + i0]);
        }
        swap_bytes_at(data, idx + i, idx + width - i - 1);
        i = i + 1;
        proof {
            assert forall|k: int| 0 <= k < width implies #[trigger] data@[idx + k] == if k < i
                || k >= width - i {
                old(data)@[idx + width - 1 - k]
            } else {
                old(data)@[idx + k]
            } by {
                if k == i0 {
                    assert(data@[idx + k] == prev[idx + width - 1 - i0]);
                } else if k == width - 1 - i0 {
                    assert(data@[idx + k] == prev[idx + i0]);
                } else {
                    assert(data@[idx + k] == prev[idx + k]);
                    assert(prev[idx + k] == if k < i0 || k >= width - i0 {
                        old(data)@[idx + width - 1 - k]
                    } else {
                        old(data)@[idx + k]
                    });
                }
            }
            assert forall|k: int| 0 <= k < old(data)@.len() && !(idx <= k < idx + width) implies #[trigger] data@[k] == old(data)@[k] by {
                assert(data@[k] == prev[k]);
            }
        }
    }
    assert(reversed_window(old(data)@, data@, idx as int, width as int)) by {
        assert forall|k: int| 0 <= k < width implies #[trigger] data@[idx + k] == old(data)@[idx + width - 1 - k] by {
            if !(k < i || k >= width - i) {
                assert(k == idx + width - 1 - k - idx);
            }
        }
    }
    Ok(())
}

/// Cuts the bytes to between 50% and 99% of their length.
pub fn truncate(data: &mut Vec<u8>, prng: &mut Rng) -> (r: Result<(), Error>)
    ensures
        r is Ok,
        exists|k: int|
            1 <= k <= 50 && final(data)@.len() == #[trigger] truncated_len(old(data)@.len() as int, k),
        final(data)@ == old(data)@.take(final(data)@.len() as int),
        final(prng).exponential == old(prng).exponential,
{
    let k = prng.rand_range(0, 50) + 1;
    let size = data.len();
    let q = size / 100;
    let m = size % 100;
    assert(q * (100 - k) + m * (100 - k) / 100 <= size) by (nonlinear_arith)
        requires q == size / 100, m == size % 100, 1 <= k <= 50;
    assert(m < 100);
    assert(m * (100 - k) < 10000) by (nonlinear_arith)
        requires m < 100, 1 <= k <= 50;
    let part = m * (100 - k) / 100;
    let keep = q * (100 - k) + part;
    assert(keep == truncated_len(size as int, k as int) && keep <= size) by (nonlinear_arith)
        requires keep == q * (100 - k) + part, part == m * (100 - k) / 100, q == size / 100, m == size % 100, 1 <= k <= 50;
    data.truncate(keep);
    Ok(())
}

/// The length that `truncate` keeps of `size` bytes when it cuts `k` percent.
pub open spec fn truncated_len(size: int, k: int) -> int {
    size * (100 - k) / 100
}

/// Appends a copy of a window of `passes` bytes taken at a random offset.
pub fn append(data: &mut Vec<u8>, passes: usize, prng: &mut Rng) -> (r: Result<(), Error>)
    ensures
        passes > old(data)@.len() <==> r is Err,
        r is Err ==> final(data)@ == old(data)@,
        r is Ok ==> exists|from: int|
            0 <= from && from + passes <= old(data)@.len() && final(data)@ == old(data)@
                + #[trigger] old(data)@.subrange(from, from + passes),
        final(prng).exponential == old(prng).exponential,
{
    let size = data.len();
    if passes > size {
        return Err(Error::new("Mutation size > test case"));
    }
    let from = prng.rand_range(0, size - passes);
    let ghost before = data@;
    let mut i: usize = 0;
    while i < passes
        invariant
            from + passes <= size,
            size == before.len(),
            i <= passes,
            data@ == before + before.subrange(from as int, from + i),
        decreases passes - i,
    {
        let b = data[from + i];
        data.push(b);
        i = i + 1;
        assert(data@ =~= before + before.subrange(from as int, from + i));
    }
    Ok(())
}

/// What `rand_range(0, n)` gives from generator state `g`, and the state after it.
pub open spec fn draw_below(n: usize, g: Rng) -> (int, Rng) {
    if n == 0 {
        (0, g)
    } else {
        (in_range(0, n, g.draw()), g.next())
    }
}

/// The bytes `data[..split] ++ other[from..]` for a random `split` and `from`.
pub fn splice(data: &mut Vec<u8>, other: &Vec<u8>, prng: &mut Rng) -> (r: Result<(), Error>)
    ensures
        r is Ok,
        ({
            let s = draw_below(old(data)@.len() as usize, *old(prng));
            let f = draw_below(other@.len() as usize, s.1);
            &&& final(data)@ == old(data)@.take(s.0) + other@.skip(f.0)
            &&& *final(prng) == f.1
        }),
        exists|split: int, from: int|
            0 <= split <= old(data)@.len() && 0 <= from <= other@.len() && (old(data)@.len() > 0
                ==> split < old(data)@.len()) && (other@.len() > 0 ==> from < other@.len())
                && final(data)@
                == #[trigger] old(data)@.take(split) + #[trigger] other@.skip(from),
        final(prng).exponential == old(prng).exponential,
{
    let size = data.len();
    let split = prng.rand_range(0, size);
    let from = prng.rand_range(0, other.len());
    let mut new_data: Vec<u8> = Vec::new();
    let mut i: usize = 0;
    while i < split
        invariant
            split <= size,
            size == data@.len(),
            i <= split,
            new_data@ == data@.take(i as int),
        decreases split - i,
    {
        new_data.push(data[i]);
        i = i + 1;
        assert(new_data@ =~= data@.take(i as int));
    }
    let mut j: usize = from;
    while j < other.len()
        invariant
            from <= j <= other@.len(),
            new_data@ == data@.take(split as int) + other@.subrange(from as int, j as int),
        decreases other@.len() - j,
    {
        new_data.push(other[j]);
        j = j + 1;
        assert(new_data@ =~= data@.take(split as int) + other@.subrange(from as int, j as int));
    }
    assert(other@.subrange(from as int, other@.len() as int) =~= other@.skip(from as int));
    *data = new_data;
    Ok(())
}

/// Writes `word`, forwards or reversed, over the bytes at a random offset. Fails
/// when the word is longer than the bytes.
pub fn add_from_dict(data: &mut Vec<u8>, word: &Vec<u8>, prng: &mut Rng) -> (r: Result<(), Error>)
    ensures
        word@.len() > old(data)@.len() <==> r is Err,
        r is Err ==> final(data)@ == old(data)@,
        final(data)@.len() == old(data)@.len(),
        r is Ok ==> exists|to: int|
            0 <= to && to + word@.len() <= old(data)@.len() && same_outside(
                final(data)@,
                old(data)@,
                to,
                to + word@.len(),
            ) && (#[trigger] final(data)@.subrange(to, to + word@.len()) == word@ || final(data)@.subrange(to, to + word@.len()) == rev(word@)),
        final(prng).exponential == old(prng).exponential,
{
    let size = data.len();
    let val_size = word.len();
    if val_size > size {
        return Err(Error::new("Dictionary token larger than test case"));
    }
    let to = prng.rand_range(0, size - val_size);
    if val_size == 1 {
        data[to] = word[0];
        assert(data@.subrange(to as int, to + 1) =~= word@);
        return Ok(());
    }
    let src = if prng.bool() { reversed(word) } else { vstd::slice::slice_to_vec(word.as_slice()) };
    let mut i: usize = 0;
    while i < val_size
        invariant
            to + val_size <= size,
            size == data@.len(),
            val_size == src@.len(),
            i <= val_size,
            same_outside(data@, old(data)@, to as int, to + val_size),
            data@.subrange(to as int, to + i) == src@.subrange(0, i as int),
        decreases val_size - i,
    {
        data[to + i] = src[i];
        i = i + 1;
        assert(data@.subrange(to as int, to + i) =~= src@.subrange(0, i as int));
    }
    assert(src@.subrange(0, val_size as int) =~= src@);
    Ok(())
}

/// The bytes of `word` in reverse order.
pub fn reversed(word: &Vec<u8>) -> (r: Vec<u8>)
    ensures
        r@ == rev(word@),
{
    let n = word.len();
    let mut out: Vec<u8> = Vec::with_capacity(n);
    let mut i: usize = 0;
    while i < n
        invariant
            n == word@.len(),
            i <= n,
            out@.len() == i,
            forall|k: int| 0 <= k < i ==> #[trigger] out@[k] == word@[n - 1 - k],
        decreases n - i,
    {
        out.push(word[n - 1 - i]);
        i = i + 1;
    }
    assert(out@ =~= rev(word@));
    out
}

/// The bytes outside `[lo, hi)` are those of `old`, and the length is kept.
pub open spec fn same_outside(new: Seq<u8>, old: Seq<u8>, lo: int, hi: int) -> bool {
    &&& new.len() == old.len()
    &&& forall|k: int| 0 <= k < old.len() && !(lo <= k < hi) ==> #[trigger] new[k] == old[k]
}

/// The widths, in bytes, of the integers that the integer mutators work on.
pub const WIDTHS: [usize; 4] = [1, 2, 4, 8];

/// Swaps a block of `bytes` bytes near the start with its right neighbour, or
/// else its left one; where neither fits, swaps within what fits, or inverts a
/// byte when that is under two bytes.
pub fn swap_neighbors_width(data: &mut Vec<u8>, bytes: usize, prng: &mut Rng) -> (r: Result<(), Error>)
    requires
        1 <= bytes <= 8,
    ensures
        old(data)@.len() <= bytes <==> r is Err,
        r is Err ==> final(data)@ == old(data)@,
        final(data)@.len() == old(data)@.len(),
        r is Ok ==> (exists|i: int, w: int|
            1 <= w <= bytes && #[trigger] exchanged(old(data)@, final(data)@, i, w)) || (exists|
            i: int,
            w: int,
        | 1 <= w <= bytes && #[trigger] mirrored(old(data)@, final(data)@, i, w)) || (exists|i: int|
            0 <= i < old(data)@.len() && #[trigger] final(data)@ == old(data)@.update(i, !old(data)@[i])),
        final(data)@.to_multiset() == old(data)@.to_multiset() || exists|i: int|
            0 <= i < old(data)@.len() && #[trigger] final(data)@ == old(data)@.update(i, !old(data)@[i]),
        final(prng).exponential == old(prng).exponential,
{
    let size = data.len();
    if size <= bytes {
        return Err(Error::new("Mutation size > test case"));
    }
    let idx = random_index(size, size - 1 - bytes, prng);
    if idx + 2 * bytes < size {
        swap_blocks(data, idx, bytes);
    } else if idx >= bytes && idx + bytes < size {
        swap_blocks(data, idx - bytes, bytes);
    } else {
        let mut max_bytes = size - idx;
        if idx < max_bytes {
            max_bytes = idx;
        }
        if bytes < max_bytes {
            max_bytes = bytes;
        }
        if max_bytes < 2 {
            let v = !data[max_bytes];
            data[max_bytes] = v;
            return Ok(());
        }
        let half = max_bytes / 2;
        if idx >= half {
            swap_blocks(data, idx - half + 1, half);
        } else {
            mirror_ends(data, idx, half);
        }
    }
    Ok(())
}

/// `new` is `old` with the `w`-byte blocks at `i` and `i + w` exchanged.
pub open spec fn exchanged(old: Seq<u8>, new: Seq<u8>, i: int, w: int) -> bool {
    &&& 0 <= i && i + 2 * w <= old.len()
    &&& same_outside(new, old, i, i + 2 * w)
    &&& forall|k: int| 0 <= k < w ==> #[trigger] new[i + k] == old[i + w + k] && new[i + w + k] == old[i + k]
}

/// `new` is `old` with byte `i + k` swapped with byte `len - 1 - k` for each `k < w`.
pub open spec fn mirrored(old: Seq<u8>, new: Seq<u8>, i: int, w: int) -> bool {
    &&& 0 <= i && i + 2 * w <= old.len()
    &&& new.len() == old.len()
    &&& forall|k: int| 0 <= k < w ==> #[trigger] new[i + k] == old[old.len() - 1 - k] && new[old.len() - 1 - k] == old[i + k]
    &&& forall|k: int| 0 <= k < old.len() && !(i <= k < i + w) && !(old.len() - w <= k < old.len()) ==> #[trigger] new[k] == old[k]
}

/// Exchanges the `w`-byte blocks at `i` and `i + w`.
fn swap_blocks(data: &mut Vec<u8>, i: usize, w: usize)
    requires
        i + 2 * w <= old(data)@.len(),
    ensures
        exchanged(old(data)@, final(data)@, i as int, w as int),
        final(data)@.to_multiset() == old(data)@.to_multiset(),
{
    let n = data.len();
    let mut k: usize = 0;
    while k < w
        invariant
            k <= w,
            n == data@.len(),
            i + 2 * w <= data@.len(),
            data@.len() == old(data)@.len(),
            data@.to_multiset() == old(data)@.to_multiset(),
            same_outside(data@, old(data)@, i as int, i + 2 * w),
            forall|m: int| 0 <= m < k ==> #[trigger] data@[i + m] == old(data)@[i + w + m] && data@[i + w + m] == old(data)@[i + m],
            forall|m: int| k <= m < w ==> #[trigger] data@[i + m] == old(data)@[i + m] && data@[i + w + m] == old(data)@[i + w + m],
        decreases w - k,
    {
        let ghost prev = data@;
        swap_bytes_at(data, i + k, i + w + k);
        proof {
            assert forall|m: int| 0 <= m < k + 1 implies #[trigger] data@[i + m] == old(data)@[i + w + m] && data@[i + w + m] == old(data)@[i + m] by {
                if m < k {
                    assert(prev[i + m] == old(data)@[i + w + m]);
                }
            }
            assert forall|m: int| k + 1 <= m < w implies #[trigger] data@[i + m] == old(data)@[i + m] && data@[i + w + m] == old(data)@[i + w + m] by {
                assert(prev[i + m] == old(data)@[i + m]);
            }
            assert forall|m: int| 0 <= m < old(data)@.len() && !(i <= m < i + 2 * w) implies #[trigger] data@[m] == old(data)@[m] by {
                assert(data@[m] == prev[m]);
            }
        }
        k = k + 1;
    }
}

/// Swaps byte `i + k` with byte `len - 1 - k` for each `k < w`.
fn mirror_ends(data: &mut Vec<u8>, i: usize, w: usize)
    requires
        i + 2 * w <= old(data)@.len(),
    ensures
        mirrored(old(data)@, final(data)@, i as int, w as int),
        final(data)@.to_multiset() == old(data)@.to_multiset(),
{
    let n = data.len();
    let mut k: usize = 0;
    while k < w
        invariant
            k <= w,
            n == data@.len(),
            i + 2 * w <= n,
            data@.len() == old(data)@.len(),
            data@.to_multiset() == old(data)@.to_multiset(),
            forall|m: int| 0 <= m < k ==> #[trigger] data@[i + m] == old(data)@[n - 1 - m] && data@[n - 1 - m] == old(data)@[i + m],
            forall|m: int| k <= m < w ==> #[trigger] data@[i + m] == old(data)@[i + m] && data@[n - 1 - m] == old(data)@[n - 1 - m],
            forall|m: int| 0 <= m < n && !(i <= m < i + w) && !(n - w <= m < n) ==> #[trigger] data@[m] == old(data)@[m],
        decreases w - k,
    {
        let ghost prev = data@;
        swap_bytes_at(data, i + k, n - 1 - k);
        proof {
            assert forall|m: int| 0 <= m < k + 1 implies #[trigger] data@[i + m] == old(data)@[n - 1 - m] && data@[n - 1 - m] == old(data)@[i + m] by {
                if m < k {
                    assert(prev[i + m] == old(data)@[n - 1 - m]);
                }
            }
            assert forall|m: int| k + 1 <= m < w implies #[trigger] data@[i + m] == old(data)@[i + m] && data@[n - 1 - m] == old(data)@[n - 1 - m] by {
                assert(prev[i + m] == old(data)@[i + m]);
            }
            assert forall|m: int| 0 <= m < n && !(i <= m < i + w) && !(n - w <= m < n) implies #[trigger] data@[m] == old(data)@[m] by {
                assert(data@[m] == prev[m]);
            }
        }
        k = k + 1;
    }
}

/// `256^w - 1`, the mask of a `w`-byte integer, for `1 <= w <= 8`.
fn width_mask(w: usize) -> (r: u128)
    requires
        1 <= w <= 8,
    ensures
        r + 1 == pow256(w as nat),
        r < 0x1_0000_0000_0000_0000,
{
    proof {
        reveal_with_fuel(pow256, 9);
    }
    if w == 1 {
        0xff
    } else if w == 2 {
        0xffff
    } else if w <= 4 {
        if w == 3 { 0xff_ffff } else { 0xffff_ffff }
    } else if w == 5 {
        0xff_ffff_ffff
    } else if w == 6 {
        0xffff_ffff_ffff
    } else if w == 7 {
        0xff_ffff_ffff_ffff
    } else {
        0xffff_ffff_ffff_ffff
    }
}

/// Byte `i` of the `w`-byte big-endian form of `v`.
pub open spec fn be_byte(v: u128, w: int, i: int) -> u8 {
    (v >> ((8 * (w - 1 - i)) as u128)) as u8
}

/// The result of operation `op` of `arithmetic` on `val`, wrapped by `mask`:
/// -1, +1, *2, negation, shift left by 2, shift right by 2.
pub open spec fn arith_op(op: int, val: u128, mask: u128) -> u128 {
    if op == 0 {
        ((val + mask) as u128) & mask
    } else if op == 1 {
        ((val + 1) as u128) & mask
    } else if op == 2 {
        ((val * 2) as u128) & mask
    } else if op == 3 {
        ((mask - val + 1) as u128) & mask
    } else if op == 4 {
        (val << 2u128) & mask
    } else {
        val >> 2u128
    }
}

/// Writes the low `w` bytes of `val` most significant first at `at`.
fn write_be(data: &mut Vec<u8>, at: usize, w: usize, val: u128)
    requires
        1 <= w <= 8,
        at + w <= old(data)@.len(),
    ensures
        same_outside(final(data)@, old(data)@, at as int, at + w),
        forall|i: int| 0 <= i < w ==> #[trigger] final(data)@[at + i] == be_byte(val, w as int, i),
{
    let dl = data.len();
    let mut i: usize = 0;
    while i < w
        invariant
            1 <= w <= 8,
            at + w <= old(data)@.len(),
            dl == old(data)@.len(),
            i <= w,
            same_outside(data@, old(data)@, at as int, at + w),
            forall|k: int| 0 <= k < i ==> #[trigger] data@[at + k] == be_byte(val, w as int, k),
        decreases w - i,
    {
        let shift = (8 * (w - 1 - i)) as u128;
        data[at + i] = (val >> shift) as u8;
        i = i + 1;
    }
}

/// `new` is `old` with the `w` bytes at `idx`, read most significant first,
/// replaced by operation `op` of `arithmetic` applied to them.
pub open spec fn arith_written(old: Seq<u8>, new: Seq<u8>, idx: int, w: int, op: int) -> bool {
    let val = read_value(old.subrange(idx, idx + w), false) as u128;
    let mask = (pow256(w as nat) - 1) as u128;
    &&& same_outside(new, old, idx, idx + w)
    &&& forall|i: int| 0 <= i < w ==> #[trigger] new[idx + i] == be_byte(arith_op(op, val, mask), w, i)
}

/// Reads a `bytes`-wide integer most significant byte first at a random offset,
/// applies one of -1, +1, *2, negation, shift left by 2 and shift right by 2,
/// wrapping at the width, and writes it back.
pub fn arithmetic(data: &mut Vec<u8>, bytes: usize, prng: &mut Rng) -> (r: Result<(), Error>)
    requires
        1 <= bytes <= 8,
    ensures
        old(data)@.len() < bytes <==> r is Err,
        r is Err ==> final(data)@ == old(data)@,
        r is Ok ==> exists|idx: int, op: int|
            0 <= idx && idx + bytes <= old(data)@.len() && 0 <= op < 6 && #[trigger] arith_written(
                old(data)@,
                final(data)@,
                idx,
                bytes as int,
                op,
            ),
        final(prng).exponential == old(prng).exponential,
{
    let size = data.len();
    if size < bytes {
        return Err(Error::new("Mutation size > test case"));
    }
    let idx = random_index(size, bytes, prng);
    let val = read_raw(data, idx, bytes, false);
    let mask = width_mask(bytes);
    let op = prng.rand_range(0, 6);
    let val2: u128 = if op == 0 {
        (val + mask) & mask
    } else if op == 1 {
        (val + 1) & mask
    } else if op == 2 {
        (val * 2) & mask
    } else if op == 3 {
        (mask - val + 1) & mask
    } else if op == 4 {
        (val << 2u128) & mask
    } else {
        val >> 2u128
    };
    assert(val2 == arith_op(op as int, val, mask));
    write_be(data, idx, bytes, val2);
    assert(arith_written(old(data)@, data@, idx as int, bytes as int, op as int));
    Ok(())
}

/// What `change_ascii_integer` does from offset `skip`: when the bytes from there
/// to the end are all ASCII digits, each of them becomes one and the same digit;
/// otherwise the first byte is inverted.
pub open spec fn ascii_rewrite(old: Seq<u8>, new: Seq<u8>, skip: int) -> bool {
    if forall|k: int| skip <= k < old.len() ==> 48 <= #[trigger] old[k] <= 57 {
        &&& new.take(skip) == old.take(skip)
        &&& 48 <= new[skip] <= 57
        &&& forall|k: int| skip <= k < old.len() ==> #[trigger] new[k] == new[skip]
    } else {
        new == old.update(0, !old[0])
    }
}

/// True when every byte of `data[from..]` is an ASCII digit.
fn all_digits(data: &Vec<u8>, from: usize) -> (r: bool)
    requires
        from <= data@.len(),
    ensures
        r == forall|k: int| from <= k < data@.len() ==> 48 <= #[trigger] data@[k] <= 57,
{
    let mut i = from;
    while i < data.len()
        invariant
            from <= i <= data@.len(),
            forall|k: int| from <= k < i ==> 48 <= #[trigger] data@[k] <= 57,
        decreases data@.len() - i,
    {
        if data[i] < 48 || data[i] > 57 {
            return false;
        }
        i = i + 1;
    }
    true
}

/// When the bytes from a random offset to the end are all ASCII digits, folds them
/// into one byte value, changes it (+1, -1, /2, *2 or a random remap), caps it at
/// 9 and writes that digit over the whole run; otherwise inverts the first byte.
pub fn change_ascii_integer(data: &mut Vec<u8>, prng: &mut Rng) -> (r: Result<(), Error>)
    ensures
        old(data)@.len() == 0 <==> r is Err,
        r is Err ==> final(data)@ == old(data)@,
        final(data)@.len() == old(data)@.len(),
        r is Ok ==> exists|skip: int|
            0 <= skip < old(data)@.len() && #[trigger] ascii_rewrite(old(data)@, final(data)@, skip),
        final(prng).exponential == old(prng).exponential,
{
    let size = data.len();
    if size == 0 {
        return Err(Error::new("Nothing to change"));
    }
    let skip_past = prng.rand_range(0, size);
    if !all_digits(data, skip_past) {
        let v = !data[0];
        data[0] = v;
        assert(ascii_rewrite(old(data)@, data@, skip_past as int));
        return Ok(());
    }
    let ghost before = data@;
    let mut val: u8 = 0;
    let mut i: usize = skip_past;
    while i < size
        invariant
            skip_past <= i <= size,
            size == data@.len(),
        decreases size - i,
    {
        let digit = data[i].wrapping_sub(48);
        let weight = 10u8.wrapping_mul((i - skip_past) as u8);
        val = val.wrapping_add(digit.wrapping_mul(weight));
        i = i + 1;
    }
    let op = prng.rand_range(0, 5);
    if op == 0 {
        val = val.wrapping_add(1);
    } else if op == 1 {
        val = val.wrapping_sub(1);
    } else if op == 2 {
        val = val / 2;
    } else if op == 3 {
        val = val.wrapping_mul(2);
    } else {
        let v = val as usize;
        assert(v * v <= 65025) by (nonlinear_arith)
            requires v <= 255;
        let sq = v * v;
        val = prng.rand_range(0, sq) as u8;
    }
    if val > 9 {
        val = 9;
    }
    let mut j: usize = skip_past;
    while j < size
        invariant
            skip_past <= j <= size,
            size == data@.len(),
            val <= 9,
            data@.take(skip_past as int) == before.take(skip_past as int),
            forall|k: int| skip_past <= k < j ==> #[trigger] data@[k] == val + 48,
        decreases size - j,
    {
        data[j] = val + 48;
        j = j + 1;
        assert(data@.take(skip_past as int) =~= before.take(skip_past as int));
    }
    assert(ascii_rewrite(old(data)@, data@, skip_past as int)) by {
        assert(forall|k: int| skip_past <= k < size ==> #[trigger] data@[k] == (val + 48) as u8);
    }
    Ok(())
}

/// `new` is `old` with the `w`-byte window at `off` holding `v` most significant
/// first.
pub open spec fn binary_written(old: Seq<u8>, new: Seq<u8>, off: int, w: int, v: u128) -> bool {
    &&& same_outside(new, old, off, off + w)
    &&& forall|i: int| 0 <= i < w ==> #[trigger] new[off + i] == be_byte(v, w, i)
}

/// The low `i` bytes of `v` in reverse order: byte 0 of `v` becomes the most
/// significant of them.
pub open spec fn swapped_bytes(v: u128, i: nat) -> u128
    decreases i,
{
    if i == 0 {
        0
    } else {
        ((swapped_bytes(v, (i - 1) as nat) << 8u128) | ((v >> ((8 * (i - 1)) as u128)) & 0xff))
            & 0xffff_ffff_ffff_ffff
    }
}

/// The value that `change_binary_integer` writes into a `w`-byte window, from the
/// value `base` it read (or the length), the amount `add` in `[0, 10]`, whether it
/// byte-swapped, whether it negated, and the random byte `rb` used when the sum
/// equals `add`.
pub open spec fn binary_value(base: u64, add: u64, swap: bool, neg: bool, rb: u64, w: nat) -> u128 {
    let mask = (pow256(w) - 1) as u128;
    let v1: u64 = if swap {
        ((((swapped_bytes(base as u128 & mask, w) & mask) + add as u128) as u128) & mask) as u64
    } else {
        base.wrapping_add(add)
    };
    let v2: u64 = if neg {
        0u64.wrapping_sub(if add == v1 { rb } else { v1 })
    } else {
        v1
    };
    v2 as u128 & mask
}

/// The low `w` bytes of `v` in reverse order, for `1 <= w <= 8`.
fn swap_in_width(v: u128, w: usize) -> (r: u128)
    requires
        1 <= w <= 8,
    ensures
        r < pow256(w as nat),
        r == swapped_bytes(v, w as nat) & (pow256(w as nat) - 1) as u128,
{
    let mask = width_mask(w);
    let mut out: u128 = 0;
    let mut i: usize = 0;
    while i < w
        invariant
            i <= w <= 8,
            out == swapped_bytes(v, i as nat),
        decreases w - i,
    {
        let b = (v >> ((8 * i) as u128)) & 0xff;
        out = ((out << 8u128) | b) & 0xffff_ffff_ffff_ffff;
        i = i + 1;
    }
    let r = out & mask;
    assert(r <= mask) by (bit_vector)
        requires r == out & mask;
    r
}

/// Reads a 1-, 2-, 4- or 8-byte integer most significant byte first at a random
/// offset (near the start, one time in four, the length instead), adds a small
/// amount (after a byte swap, half of the time), negates it when nothing was added
/// or by a coin flip, and writes it back.
pub fn change_binary_integer(data: &mut Vec<u8>, prng: &mut Rng) -> (r: Result<(), Error>)
    ensures
        r is Err ==> final(data)@ == old(data)@,
        old(data)@.len() == 0 ==> r is Err,
        old(data)@.len() >= 8 ==> r is Ok,
        r is Ok ==> exists|off: int, w: nat, base: u64, add: u64, swap: bool, neg: bool, rb: u64|
            (w == 1 || w == 2 || w == 4 || w == 8) && 0 <= off && off + w <= old(data)@.len() && add
                <= 10 && (base == old(data)@.len() || base == read_value(
                old(data)@.subrange(off, off + w),
                false,
            )) && #[trigger] binary_written(
                old(data)@,
                final(data)@,
                off,
                w as int,
                binary_value(base, add, swap, neg, rb, w),
            ),
        final(prng).exponential == old(prng).exponential,
{
    let widths = WIDTHS;
    let bin_size = prng.pick(&widths);
    let size = data.len();
    if size < bin_size {
        return Err(Error::new("Mutation size > test case"));
    }
    let off = prng.rand_range(0, size - bin_size + 1);
    let a = prng.rand_range(0, 21);
    let add: u64 = if a > 10 { (a - 10) as u64 } else { 0 };
    let base: u64 = if off < 64 && prng.bool_chance(4) {
        size as u64
    } else {
        proof {
            reveal_with_fuel(pow256, 9);
            lemma_pow256_mono(bin_size as nat, 8);
        }
        read_raw(data, off, bin_size, false) as u64
    };
    let mask = width_mask(bin_size);
    let swap = prng.bool();
    let mut val: u64 = if swap {
        let swapped = swap_in_width(base as u128 & mask, bin_size);
        (((swapped + add as u128) & mask) as u64)
    } else {
        base.wrapping_add(add)
    };
    let neg = add == 0 || prng.bool();
    let mut rb: u64 = 0;
    if neg {
        if add == val {
            rb = prng.rand_byte() as u64;
            val = rb;
        }
        val = 0u64.wrapping_sub(val);
    }
    assert(val as u128 & mask == binary_value(base, add, swap, neg, rb, bin_size as nat));
    write_be(data, off, bin_size, val as u128 & mask);
    assert(binary_written(
        old(data)@,
        data@,
        off as int,
        bin_size as int,
        binary_value(base, add, swap, neg, rb, bin_size as nat),
    ));
    Ok(())
}

/// Overwrites a random range of the bytes with bytes of `from` (XOR with a single
/// byte, zero taken as one, when the range is one byte long).
pub fn copy_part_of(from: &Vec<u8>, data: &mut Vec<u8>, prng: &mut Rng) -> (r: Result<(), Error>)
    ensures
        from@.len() == 0 || old(data)@.len() == 0 <==> r is Err,
        r is Err ==> final(data)@ == old(data)@,
        final(data)@.len() == old(data)@.len(),
        r is Ok ==> exists|to: int, f: int, c: int, x: bool|
            #[trigger] copied_part(old(data)@, final(data)@, from@, to, f, c, x),
        final(prng).exponential == old(prng).exponential,
{
    let size = data.len();
    if from.len() == 0 || size == 0 {
        return Err(Error::new("Nothing to copy"));
    }
    let mut to_idx = prng.rand_range(0, size);
    let c = prng.rand_range(0, size - to_idx) + 1;
    let mut copy_size = if c < from.len() { c } else { from.len() };
    let mut from_idx = prng.rand_range(0, from.len() - copy_size + 1);
    if copy_size == 1 {
        let b = from[from_idx];
        let x = if b == 0 { 1 } else { b };
        let v = data[to_idx] ^ x;
        data[to_idx] = v;
        assert(copied_part(old(data)@, data@, from@, to_idx as int, from_idx as int, 1, true));
        return Ok(());
    }
    if from_idx == to_idx {
        if from_idx > 0 {
            from_idx = from_idx - 1;
        } else if to_idx > 0 {
            to_idx = to_idx - 1;
        } else if from.len() - from_idx - copy_size > 1 {
            from_idx = from_idx + 1;
        } else {
            from_idx = from_idx + 1;
            copy_size = copy_size - 1;
        }
    }
    let fl = from.len();
    let mut i: usize = 0;
    while i < copy_size
        invariant
            from_idx + copy_size <= from@.len(),
            fl == from@.len(),
            to_idx + copy_size <= size,
            size == data@.len(),
            size == old(data)@.len(),
            i <= copy_size,
            same_outside(data@, old(data)@, to_idx as int, to_idx + copy_size),
            forall|k: int| 0 <= k < i ==> #[trigger] data@[to_idx + k] == from@[from_idx + k],
        decreases copy_size - i,
    {
        data[to_idx + i] = from[from_idx + i];
        i = i + 1;
    }
    assert forall|k: int| 0 <= k < copy_size implies #[trigger] data@.subrange(
        to_idx as int,
        to_idx + copy_size,
    )[k] == from@.subrange(from_idx as int, from_idx + copy_size)[k] by {
        assert(data@[to_idx + k] == from@[from_idx + k]);
    }
    assert(data@.subrange(to_idx as int, to_idx + copy_size) =~= from@.subrange(
        from_idx as int,
        from_idx + copy_size,
    ));
    assert(copied_part(
        old(data)@,
        data@,
        from@,
        to_idx as int,
        from_idx as int,
        copy_size as int,
        false,
    ));
    Ok(())
}

/// `new` is `old` with `from[f..f + c]` written at `to`; or, when the drawn length
/// is one (`x`), with `from[f]` XORed into `old[to]`, a zero taken as one.
pub open spec fn copied_part(
    old: Seq<u8>,
    new: Seq<u8>,
    from: Seq<u8>,
    to: int,
    f: int,
    c: int,
    x: bool,
) -> bool {
    &&& 1 <= c
    &&& 0 <= to && to + c <= old.len()
    &&& 0 <= f && f + c <= from.len()
    &&& x ==> c == 1
    &&& if x {
        new == old.update(to, old[to] ^ (if from[f] == 0 { 1u8 } else { from[f] }))
    } else {
        same_outside(new, old, to, to + c) && new.subrange(to, to + c) == from.subrange(f, f + c)
    }
}

/// Inserts a random range of `from`, of 1 to `max_size - len` bytes, at a random
/// position.
pub fn insert_part_of(from: &Vec<u8>, data: &mut Vec<u8>, max_size: usize, prng: &mut Rng) -> (r:
    Result<(), Error>)
    ensures
        max_size <= old(data)@.len() || from@.len() == 0 <==> r is Err,
        r is Err ==> final(data)@ == old(data)@,
        r is Ok ==> exists|to: int, f: int, c: int|
            0 <= to <= old(data)@.len() && 0 <= f && 1 <= c && f + c <= from@.len()
                && old(data)@.len() + c <= max_size && final(data)@ == #[trigger] old(data)@.take(to)
                + #[trigger] from@.subrange(f, f + c) + old(data)@.skip(to),
        final(prng).exponential == old(prng).exponential,
{
    let size = data.len();
    if max_size <= size || from.len() == 0 {
        return Err(Error::new("Insertion size is 0"));
    }
    let available = max_size - size;
    let fl = from.len();
    let mut max_copy = if available < fl { available } else { fl };
    if max_copy == usize::MAX {
        max_copy = max_copy - 1;
    }
    let copy_size = prng.rand_range(1, max_copy + 1);
    let from_idx = prng.rand_range(0, from.len() - copy_size + 1);
    let to_idx = prng.rand_range(0, size);
    let mut out: Vec<u8> = Vec::new();
    let mut i: usize = 0;
    while i < to_idx
        invariant
            to_idx <= size,
            size == data@.len(),
            i <= to_idx,
            out@ == data@.take(i as int),
        decreases to_idx - i,
    {
        out.push(data[i]);
        i = i + 1;
        assert(out@ =~= data@.take(i as int));
    }
    let mut j: usize = 0;
    while j < copy_size
        invariant
            from_idx + copy_size <= from@.len(),
            fl == from@.len(),
            j <= copy_size,
            out@ == data@.take(to_idx as int) + from@.subrange(from_idx as int, from_idx + j),
        decreases copy_size - j,
    {
        out.push(from[from_idx + j]);
        j = j + 1;
        assert(out@ =~= data@.take(to_idx as int) + from@.subrange(from_idx as int, from_idx + j));
    }
    let mut k: usize = to_idx;
    while k < size
        invariant
            to_idx <= k <= size,
            size == data@.len(),
            out@ == data@.take(to_idx as int) + from@.subrange(from_idx as int, from_idx + copy_size)
                + data@.subrange(to_idx as int, k as int),
        decreases size - k,
    {
        out.push(data[k]);
        k = k + 1;
        assert(out@ =~= data@.take(to_idx as int) + from@.subrange(from_idx as int, from_idx + copy_size)
            + data@.subrange(to_idx as int, k as int));
    }
    assert(data@.subrange(to_idx as int, size as int) =~= data@.skip(to_idx as int));
    *data = out;
    Ok(())
}

/// A random value in `[0, max]`: a draw modulo `max + 1`.
fn draw_up_to(prng: &mut Rng, max: usize) -> (r: usize)
    ensures
        r <= max,
        final(prng).exponential == old(prng).exponential,
{
    let d = prng.rand();
    if max == usize::MAX {
        d
    } else {
        d % (max + 1)
    }
}

/// Copies `n` bytes of `src` from `from` over `out` at `at`.
fn copy_into(out: &mut Vec<u8>, at: usize, src: &Vec<u8>, from: usize, n: usize)
    requires
        at + n <= old(out)@.len(),
        from + n <= src@.len(),
    ensures
        final(out)@.len() == old(out)@.len(),
        forall|k: int|
            0 <= k < old(out)@.len() ==> #[trigger] final(out)@[k] == if at <= k < at + n {
                src@[from + k - at]
            } else {
                old(out)@[k]
            },
{
    let ol = out.len();
    let sl = src.len();
    let mut i: usize = 0;
    while i < n
        invariant
            at + n <= ol,
            ol == out@.len(),
            from + n <= sl,
            sl == src@.len(),
            i <= n,
            forall|k: int|
                0 <= k < ol ==> #[trigger] out@[k] == if at <= k < at + i {
                    src@[from + k - at]
                } else {
                    old(out)@[k]
                },
        decreases n - i,
    {
        out[at + i] = src[from + i];
        i = i + 1;
    }
}

/// The bytes that runs taken in turn make: each run `(from_a, n)` takes the next
/// `n` bytes of `a` (or of `b`), continuing where that source stopped; with how far
/// each source was read.
pub open spec fn woven(a: Seq<u8>, b: Seq<u8>, runs: Seq<(bool, int)>) -> (Seq<u8>, int, int)
    decreases runs.len(),
{
    if runs.len() == 0 {
        (Seq::empty(), 0, 0)
    } else {
        let p = woven(a, b, runs.drop_last());
        let run = runs.last();
        if run.0 {
            (p.0 + a.subrange(p.1, p.1 + run.1), p.1 + run.1, p.2)
        } else {
            (p.0 + b.subrange(p.2, p.2 + run.1), p.1, p.2 + run.1)
        }
    }
}

/// The runs alternate between the two sources, starting with the first.
pub open spec fn alternating(runs: Seq<(bool, int)>) -> bool {
    forall|i: int| 0 <= i < runs.len() ==> (#[trigger] runs[i]).0 == (i % 2 == 0) && runs[i].1 >= 0
}

/// How many turns `cross_over` takes at most.
pub const CROSS_OVER_TURNS: usize = 0xffff_ffff;

/// A new buffer of random length in `[1, len(data) + len(other)]`, filled by
/// copying runs of random length from `data` and `other` in turn.
pub fn cross_over(data: &mut Vec<u8>, other: &Vec<u8>, prng: &mut Rng) -> (r: Result<(), Error>)
    ensures
        other@.len() == 0 ==> r is Err,
        other@.len() > 0 && old(data)@.len() + other@.len() <= usize::MAX ==> r is Ok,
        r is Err ==> final(data)@ == old(data)@,
        r is Ok ==> 1 <= final(data)@.len() <= old(data)@.len() + other@.len(),
        r is Ok ==> exists|runs: Seq<(bool, int)>|
            alternating(runs) && #[trigger] woven(old(data)@, other@, runs).0.len() <= final(data)@.len() && final(data)@.take(woven(old(data)@, other@, runs).0.len() as int) == woven(
                old(data)@,
                other@,
                runs,
            ).0 && forall|k: int|
                woven(old(data)@, other@, runs).0.len() <= k < final(data)@.len() ==> #[trigger] final(data)@[k] == 0,
        final(prng).exponential == old(prng).exponential,
{
    let size1 = data.len();
    let size2 = other.len();
    if size2 == 0 || size1 > usize::MAX - size2 {
        return Err(Error::new("Cross over candidate is empty"));
    }
    let max_out = prng.rand() % (size1 + size2) + 1;
    let mut out: Vec<u8> = vec![0u8; max_out];
    let mut out_pos: usize = 0;
    let mut pos1: usize = 0;
    let mut pos2: usize = 0;
    let mut first = true;
    let mut turns: usize = 0;
    let ghost mut runs: Seq<(bool, int)> = Seq::empty();
    assert(out@.take(0) =~= Seq::<u8>::empty());
    while out_pos < max_out && (pos1 < size1 || pos2 < size2) && turns < CROSS_OVER_TURNS
        invariant
            out@.len() == max_out,
            alternating(runs),
            first == (runs.len() % 2 == 0),
            woven(data@, other@, runs) == (out@.take(out_pos as int), pos1 as int, pos2 as int),
            forall|k: int| out_pos <= k < max_out ==> #[trigger] out@[k] == 0,
            out_pos <= max_out,
            pos1 <= size1,
            pos2 <= size2,
            size1 == data@.len(),
            size2 == other@.len(),
            prng.exponential == old(prng).exponential,
        decreases CROSS_OVER_TURNS - turns,
    {
        let out_left = max_out - out_pos;
        let ghost o0 = out@;
        let ghost op0 = out_pos as int;
        let mut extra: usize = 0;
        if first {
            if pos1 < size1 {
                let in_left = size1 - pos1;
                let max_extra = if out_left < in_left { out_left } else { in_left };
                extra = draw_up_to(prng, max_extra);
                copy_into(&mut out, out_pos, data, pos1, extra);
                out_pos = out_pos + extra;
                pos1 = pos1 + extra;
            }
        } else {
            if pos2 < size2 {
                let in_left = size2 - pos2;
                let max_extra = if out_left < in_left { out_left } else { in_left };
                extra = draw_up_to(prng, max_extra);
                copy_into(&mut out, out_pos, other, pos2, extra);
                out_pos = out_pos + extra;
                pos2 = pos2 + extra;
            }
        }
        proof {
            let old_runs = runs;
            runs = runs.push((first, extra as int));
            assert(runs.drop_last() =~= old_runs);
            assert forall|i: int| 0 <= i < runs.len() implies (#[trigger] runs[i]).0 == (i % 2 == 0)
                && runs[i].1 >= 0 by {
                if i < old_runs.len() {
                    assert(runs[i] == old_runs[i]);
                }
            }
            let w = woven(data@, other@, old_runs);
            if first {
                assert(out@.take(out_pos as int) =~= w.0 + data@.subrange(w.1, w.1 + extra));
            } else {
                assert(out@.take(out_pos as int) =~= w.0 + other@.subrange(w.2, w.2 + extra));
            }
        }
        first = !first;
        turns = turns + 1;
    }
    let ghost d0 = data@;
    *data = out;
    proof {
        assert(woven(d0, other@, runs).0.len() == out_pos);
    }
    Ok(())
}

/// How many bytes `v` needs: zero for zero.
fn significant_bytes(v: u64) -> (r: usize)
    ensures
        v != 0 ==> r == magic_len(v, 0),
        r <= 8,
        v < 0x100 ==> r <= 1,
        v < 0x1_0000 ==> r <= 2,
        v < 0x1_0000_0000 ==> r <= 4,
{
    if v == 0 {
        0
    } else if v < 0x100 {
        1
    } else if v < 0x1_0000 {
        2
    } else if v < 0x100_0000 {
        3
    } else if v < 0x1_0000_0000 {
        4
    } else if v < 0x100_0000_0000 {
        5
    } else if v < 0x1_0000_0000_0000 {
        6
    } else if v < 0x100_0000_0000_0000 {
        7
    } else {
        8
    }
}

/// Writes a random value of a random magic table over the bytes at a random
/// offset, most significant byte last: a value that needs fewer bytes than its
/// table's width lands at the end of the window, low byte first. Fails when the
/// window does not end before the last byte.
pub fn add_from_magic(data: &mut Vec<u8>, prng: &mut Rng) -> (r: Result<(), Error>)
    ensures
        r is Err ==> final(data)@ == old(data)@,
        old(data)@.len() > 8 ==> r is Ok,
        r is Ok ==> exists|idx: int, w: int, v: u64|
            0 <= idx && idx + w < old(data)@.len() && is_magic(v, w) && #[trigger] magic_written(
                old(data)@,
                final(data)@,
                idx,
                w,
                v,
            ),
        final(prng).exponential == old(prng).exponential,
{
    let dice = prng.rand_range(0, 4);
    let (val, val_size): (u64, usize) = if dice == 0 {
        (prng.pick(&MAGIC_8) as u64, 1)
    } else if dice == 1 {
        (prng.pick(&MAGIC_16) as u64, 2)
    } else if dice == 2 {
        (prng.pick(&MAGIC_32) as u64, 4)
    } else {
        (prng.pick(&MAGIC_64), 8)
    };
    assert(is_magic(val, val_size as int));
    let size = data.len();
    if val_size > size {
        return Err(Error::new("Mutation size > test case"));
    }
    let idx = random_index(size, val_size, prng);
    if idx + val_size >= size {
        return Err(Error::new("Mutation size > test case"));
    }
    let used = if val == 0 { val_size } else { significant_bytes(val) };
    assert(used <= val_size);
    let start = idx + val_size - used;
    let end = idx + val_size;
    let mut i: usize = start;
    while i < end
        invariant
            idx <= start <= i <= end,
            used <= val_size <= 8,
            start == idx + val_size - used,
            end == idx + val_size,
            end < size,
            size == old(data)@.len(),
            size == data@.len(),
            same_outside(data@, old(data)@, start as int, end as int),
            forall|k: int| start <= k < i ==> #[trigger] data@[k] == magic_byte(val, k - start),
        decreases end - i,
    {
        let shift = (8 * (i - start)) as u64;
        data[i] = (val >> shift) as u8;
        i = i + 1;
    }
    assert(magic_written(old(data)@, data@, idx as int, val_size as int, val));
    Ok(())
}

/// `v` is a value of the magic table of width `w`.
pub open spec fn is_magic(v: u64, w: int) -> bool {
    ||| w == 1 && exists|k: int| 0 <= k < 27 && v == #[trigger] MAGIC_8@[k] as u64
    ||| w == 2 && exists|k: int| 0 <= k < 63 && v == #[trigger] MAGIC_16@[k] as u64
    ||| w == 4 && exists|k: int| 0 <= k < 63 && v == #[trigger] MAGIC_32@[k] as u64
    ||| w == 8 && exists|k: int| 0 <= k < 61 && v == #[trigger] MAGIC_64@[k]
}

/// Byte `k` of `v`, least significant first.
pub open spec fn magic_byte(v: u64, k: int) -> u8 {
    (v >> ((8 * k) as u64)) as u8
}

/// How many bytes `add_from_magic` writes for `v` in a window of `w`: all of them
/// for zero, else as many as `v` needs.
pub open spec fn magic_len(v: u64, w: int) -> int {
    if v == 0 {
        w
    } else if v < 0x100 {
        1
    } else if v < 0x1_0000 {
        2
    } else if v < 0x100_0000 {
        3
    } else if v < 0x1_0000_0000 {
        4
    } else if v < 0x100_0000_0000 {
        5
    } else if v < 0x1_0000_0000_0000 {
        6
    } else if v < 0x100_0000_0000_0000 {
        7
    } else {
        8
    }
}

/// `new` is `old` with the low `magic_len(v, w)` bytes of `v`, least significant
/// first, written at the end of the window `[idx, idx + w)`.
pub open spec fn magic_written(old: Seq<u8>, new: Seq<u8>, idx: int, w: int, v: u64) -> bool {
    let start = idx + w - magic_len(v, w);
    &&& same_outside(new, old, start, idx + w)
    &&& forall|k: int| start <= k < idx + w ==> #[trigger] new[k] == magic_byte(v, k - start)
}

} // verus!
