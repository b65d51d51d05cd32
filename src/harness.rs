//! Decisions of the harness that runs the program under test: how inputs reach
//! it, what its exit means, and how the corpus and dictionary files become data.
use vstd::prelude::*;

verus! {

/// The exit codes that count as a crash: SIGILL up to SIGTERM.
pub open spec fn is_crash_code(code: i32) -> bool {
    4 <= code <= 15
}

/// What to do after the program under test ended.
#[derive(Debug, Clone, Copy, PartialEq, Eq, Structural)]
pub enum ExitAction {
    /// It exited normally: nothing to record.
    Pass,
    /// It ended with a crash code: record the input under that code.
    Crash(i32),
    /// It exited with another nonzero code: log it and go on.
    Ignore(i32),
    /// It was ended by a signal without an exit code: log it and go on.
    Signalled,
}

/// Classifies how the program ended, from its success flag and its exit code.
pub fn classify_exit(success: bool, code: Option<i32>) -> (r: ExitAction)
    ensures
        success ==> r == ExitAction::Pass,
        !success && code is None ==> r == ExitAction::Signalled,
        !success && code is Some && is_crash_code(code->Some_0) ==> r == ExitAction::Crash(
            code->Some_0,
        ),
        !success && code is Some && !is_crash_code(code->Some_0) ==> r == ExitAction::Ignore(
            code->Some_0,
        ),
{
    if success {
        return ExitAction::Pass;
    }
    match code {
        Some(c) => if 4 <= c && c <= 15 {
            ExitAction::Crash(c)
        } else {
            ExitAction::Ignore(c)
        },
        None => ExitAction::Signalled,
    }
}

/// The entries of a dictionary file: the lines that a newline ends, without it.
/// Bytes after the last newline are no entry.
pub open spec fn dict_lines(bytes: Seq<u8>) -> Seq<Seq<u8>>
    decreases bytes.len(),
{
    if bytes.len() == 0 {
        seq![]
    } else {
        let i = bytes.len() - 1;
        if bytes[i] == 10 {
            let rest = bytes.take(i);
            let start = last_newline_end(rest);
            dict_lines(rest).push(rest.skip(start))
        } else {
            dict_lines(bytes.take(i))
        }
    }
}

/// Where the last line of `bytes` starts: just after its last newline, or at 0.
pub open spec fn last_newline_end(bytes: Seq<u8>) -> int
    decreases bytes.len(),
{
    if bytes.len() == 0 {
        0
    } else if bytes[bytes.len() - 1] == 10 {
        bytes.len() as int
    } else {
        last_newline_end(bytes.take(bytes.len() - 1))
    }
}

proof fn lemma_last_newline_end_bound(bytes: Seq<u8>)
    ensures
        0 <= last_newline_end(bytes) <= bytes.len(),
    decreases bytes.len(),
{
    if bytes.len() > 0 && bytes[bytes.len() - 1] != 10 {
        lemma_last_newline_end_bound(bytes.take(bytes.len() - 1));
    }
}

/// Splits the bytes of a dictionary file into its entries (see `dict_lines`).
pub fn parse_dict(bytes: &Vec<u8>) -> (r: Vec<Vec<u8>>)
    ensures
        r@.len() == dict_lines(bytes@).len(),
        forall|k: int| 0 <= k < r@.len() ==> (#[trigger] r@[k])@ == dict_lines(bytes@)[k],
{
    let mut out: Vec<Vec<u8>> = Vec::new();
    let mut line: Vec<u8> = Vec::new();
    let mut i: usize = 0;
    while i < bytes.len()
        invariant
            i <= bytes@.len(),
            out@.len() == dict_lines(bytes@.take(i as int)).len(),
            forall|k: int| 0 <= k < out@.len() ==> (#[trigger] out@[k])@ == dict_lines(bytes@.take(i as int))[k],
            line@ == bytes@.take(i as int).skip(last_newline_end(bytes@.take(i as int))),
        decreases bytes@.len() - i,
    {
        let b = bytes[i];
        let ghost pre = bytes@.take(i as int);
        let ghost next = bytes@.take(i + 1);
        proof {
            assert(next.take(i as int) =~= pre);
            lemma_last_newline_end_bound(pre);
        }
        if b == 10 {
            let ghost ln = line@;
            out.push(line);
            line = Vec::new();
            proof {
                assert(dict_lines(next) == dict_lines(pre).push(pre.skip(last_newline_end(pre))));
                assert(line@ =~= next.skip(last_newline_end(next)));
            }
        } else {
            line.push(b);
            proof {
                assert(dict_lines(next) == dict_lines(pre));
                assert(last_newline_end(next) == last_newline_end(pre));
                assert(line@ =~= next.skip(last_newline_end(next)));
            }
        }
        i = i + 1;
    }
    assert(bytes@.take(bytes@.len() as int) =~= bytes@);
    out
}

/// True when `v` holds `x`.
fn contains_entry(v: &Vec<Vec<u8>>, x: &Vec<u8>) -> (r: bool)
    ensures
        r == exists|i: int| 0 <= i < v@.len() && (#[trigger] v@[i])@ == x@,
{
    let mut i: usize = 0;
    while i < v.len()
        invariant
            i <= v@.len(),
            forall|k: int| 0 <= k < i ==> (#[trigger] v@[k])@ != x@,
        decreases v@.len() - i,
    {
        if bytes_equal(&v[i], x) {
            return true;
        }
        i = i + 1;
    }
    false
}

/// True when two byte vectors are equal.
fn bytes_equal(a: &Vec<u8>, b: &Vec<u8>) -> (r: bool)
    ensures
        r == (a@ == b@),
{
    if a.len() != b.len() {
        return false;
    }
    let mut i: usize = 0;
    while i < a.len()
        invariant
            a@.len() == b@.len(),
            i <= a@.len(),
            forall|k: int| 0 <= k < i ==> a@[k] == b@[k],
        decreases a@.len() - i,
    {
        if a[i] != b[i] {
            return false;
        }
        i = i + 1;
    }
    assert(a@ =~= b@);
    true
}

/// `x` is one of the first `n` entries.
pub open spec fn among(entries: Seq<Vec<u8>>, x: Seq<u8>, n: int) -> bool {
    exists|k: int| 0 <= k < n && (#[trigger] entries[k])@ == x
}

/// Being among the first `n` entries stays true for more entries.
proof fn lemma_among_grows(entries: Seq<Vec<u8>>, x: Seq<u8>, n: int, m: int)
    requires
        among(entries, x, n),
        n <= m,
    ensures
        among(entries, x, m),
{
    let k = choose|k: int| 0 <= k < n && (#[trigger] entries[k])@ == x;
    assert(entries[k]@ == x);
}

/// The corpus made of the entries read from disk: each nonempty entry once.
pub fn dedup_corpus(entries: &Vec<Vec<u8>>) -> (r: Vec<Vec<u8>>)
    ensures
        forall|i: int| 0 <= i < r@.len() ==> (#[trigger] r@[i])@.len() > 0,
        forall|i: int, j: int| 0 <= i < j < r@.len() ==> r@[i]@ != r@[j]@,
        forall|i: int|
            0 <= i < entries@.len() && (#[trigger] entries@[i])@.len() > 0 ==> exists|j: int|
                0 <= j < r@.len() && (#[trigger] r@[j])@ == entries@[i]@,
        forall|j: int| 0 <= j < r@.len() ==> #[trigger] among(entries@, r@[j]@, entries@.len() as int),
{
    let mut out: Vec<Vec<u8>> = Vec::new();
    let mut i: usize = 0;
    while i < entries.len()
        invariant
            i <= entries@.len(),
            forall|k: int| 0 <= k < out@.len() ==> (#[trigger] out@[k])@.len() > 0,
            forall|a: int, b: int| 0 <= a < b < out@.len() ==> out@[a]@ != out@[b]@,
            forall|k: int|
                0 <= k < i && (#[trigger] entries@[k])@.len() > 0 ==> exists|j: int|
                    0 <= j < out@.len() && (#[trigger] out@[j])@ == entries@[k]@,
            forall|j: int| 0 <= j < out@.len() ==> #[trigger] among(entries@, out@[j]@, i as int),
        decreases entries@.len() - i,
    {
        let ghost before_all = out@;
        if entries[i].len() > 0 && !contains_entry(&out, &entries[i]) {
            let e = vstd::slice::slice_to_vec(entries[i].as_slice());
            let ghost before = out@;
            out.push(e);
            proof {
                assert(out@[out@.len() - 1]@ == entries@[i as int]@);
                assert forall|k: int|
                    0 <= k < i + 1 && (#[trigger] entries@[k])@.len() > 0 implies exists|j: int|
                    0 <= j < out@.len() && (#[trigger] out@[j])@ == entries@[k]@ by {
                    if k < i {
                        let j = choose|j: int| 0 <= j < before.len() && (#[trigger] before[j])@ == entries@[k]@;
                        assert(out@[j] == before[j]);
                    } else {
                        assert(out@[out@.len() - 1]@ == entries@[k]@);
                    }
                }
            }
        }
        proof {
            assert forall|j: int| 0 <= j < out@.len() implies #[trigger] among(
                entries@,
                out@[j]@,
                i + 1,
            ) by {
                if j < before_all.len() {
                    assert(out@[j] == before_all[j]);
                    lemma_among_grows(entries@, before_all[j]@, i as int, i + 1);
                } else {
                    assert(entries@[i as int]@ == out@[j]@);
                }
            }
        }
        i = i + 1;
    }
    out
}

/// The arguments for feeding inputs through a file: the first `@@` replaced by
/// `path`; `None` when there is no `@@`, and inputs go through the command line.
pub fn file_mode_args(args: &Vec<String>, path: &String) -> (r: Option<Vec<String>>)
    ensures
        r is Some <==> exists|i: int| 0 <= i < args@.len() && (#[trigger] args@[i])@ == seq!['@', '@'],
        r matches Some(v) ==> v@.len() == args@.len() && exists|i: int|
            0 <= i < args@.len() && (#[trigger] args@[i])@ == seq!['@', '@'] && v@[i]@ == path@
                && forall|k: int| 0 <= k < args@.len() && k != i ==> (#[trigger] v@[k])@ == args@[k]@,
{
    let marker = String::from_str("@@");
    proof {
        reveal_strlit("@@");
        assert(marker@ =~= seq!['@', '@']);
    }
    let mut idx: usize = 0;
    let mut found = false;
    while idx < args.len() && !found
        invariant
            idx <= args@.len(),
            marker@ == seq!['@', '@'],
            forall|k: int| 0 <= k < idx ==> (#[trigger] args@[k])@ != seq!['@', '@'],
            found ==> idx < args@.len() && args@[idx as int]@ == seq!['@', '@'],
        decreases args@.len() - idx, !found as int,
    {
        if args[idx] == marker {
            found = true;
        } else {
            idx = idx + 1;
        }
    }
    if !found {
        return None;
    }
    let mut out: Vec<String> = Vec::new();
    let mut k: usize = 0;
    while k < args.len()
        invariant
            idx < args@.len(),
            k <= args@.len(),
            out@.len() == k,
            forall|j: int| 0 <= j < k && j != idx ==> (#[trigger] out@[j])@ == args@[j]@,
            k > idx ==> out@[idx as int]@ == path@,
        decreases args@.len() - k,
    {
        if k == idx {
            out.push(path.clone());
        } else {
            out.push(args[k].clone());
        }
        k = k + 1;
    }
    assert(args@[idx as int]@ == seq!['@', '@']);
    Some(out)
}

} // verus!
