//! Small helpers.
use vstd::prelude::*;
use vstd::string::StringSliceAdditionalSpecFns;

verus! {

/// The value of a hexadecimal digit (either case).
pub open spec fn hex_digit(b: u8) -> int {
    if 48 <= b <= 57 {
        b - 48
    } else if 97 <= b <= 102 {
        b - 87
    } else {
        b - 55
    }
}

/// True for `0-9`, `a-f` and `A-F`.
pub open spec fn is_hex(b: u8) -> bool {
    (48 <= b <= 57) || (97 <= b <= 102) || (65 <= b <= 70)
}

/// The value of a sequence of hexadecimal digits, most significant first.
pub open spec fn hex_value(s: Seq<u8>) -> int
    decreases s.len(),
{
    if s.len() == 0 {
        0
    } else {
        hex_value(s.drop_last()) * 16 + hex_digit(s.last())
    }
}

/// The digits that `hstr_to_int` reads: without a leading `0x`, then without a
/// leading `+`.
pub open spec fn hex_body(s: Seq<u8>) -> Seq<u8> {
    let t = if s.len() >= 2 && s[0] == 48 && s[1] == 120 { s.skip(2) } else { s };
    if t.len() > 0 && t[0] == 43 { t.skip(1) } else { t }
}

/// One or more hexadecimal digits whose value fits in a `usize`.
pub open spec fn hex_ok(d: Seq<u8>) -> bool {
    &&& d.len() > 0
    &&& forall|k: int| 0 <= k < d.len() ==> is_hex(#[trigger] d[k])
    &&& hex_value(d) <= usize::MAX
}

/// A value read from hexadecimal digits does not shrink when digits are added.
pub proof fn lemma_hex_mono(s: Seq<u8>, i: int)
    requires
        0 <= i <= s.len(),
        forall|k: int| 0 <= k < s.len() ==> is_hex(#[trigger] s[k]),
    ensures
        hex_value(s.take(i)) <= hex_value(s),
        0 <= hex_value(s.take(i)),
    decreases s.len(),
{
    if i < s.len() {
        lemma_hex_mono(s.drop_last(), i);
        assert(s.drop_last().take(i) =~= s.take(i));
    } else {
        assert(s.take(i) =~= s);
        if s.len() > 0 {
            lemma_hex_mono(s.drop_last(), i - 1);
            assert(s.drop_last().take(i - 1) =~= s.drop_last());
        }
    }
}

/// Parses a hexadecimal number, with or without a leading `0x`: `None` unless
/// what follows is one or more hexadecimal digits, after an optional `+`, whose
/// value fits in a `usize`.
pub fn hstr_to_int(inp: &str) -> (r: Option<usize>)
    ensures
        r is Some <==> hex_ok(hex_body(inp.spec_bytes())),
        r matches Some(v) ==> v == hex_value(hex_body(inp.spec_bytes())),
{
    let b = inp.as_bytes();
    let n = b.len();
    let mut start: usize = 0;
    if n >= 2 && b[0] == 48 && b[1] == 120 {
        start = 2;
    }
    if start < n && b[start] == 43 {
        start = start + 1;
    }
    let ghost d = hex_body(b@);
    assert(b@ == inp.spec_bytes());
    assert(d =~= b@.skip(start as int));
    if start == n {
        return None;
    }
    let mut i = start;
    while i < n
        invariant
            start <= i <= n == b@.len(),
            d == b@.skip(start as int),
            d == hex_body(b@),
            b@ == inp.spec_bytes(),
            forall|k: int| start <= k < i ==> is_hex(#[trigger] b@[k]),
        decreases n - i,
    {
        let c = b[i];
        if !((c >= 48 && c <= 57) || (c >= 97 && c <= 102) || (c >= 65 && c <= 70)) {
            assert(!is_hex(d[i - start]));
            assert(!(forall|k: int| 0 <= k < d.len() ==> is_hex(#[trigger] d[k])));
            return None;
        }
        i = i + 1;
    }
    assert forall|k: int| 0 <= k < d.len() implies is_hex(#[trigger] d[k]) by {
        assert(d[k] == b@[start + k]);
    }
    let mut v: usize = 0;
    let mut j = start;
    while j < n
        invariant
            start <= j <= n == b@.len(),
            d == b@.skip(start as int),
            d == hex_body(b@),
            b@ == inp.spec_bytes(),
            forall|k: int| 0 <= k < d.len() ==> is_hex(#[trigger] d[k]),
            v == hex_value(d.take(j - start)),
        decreases n - j,
    {
        let c = b[j];
        assert(d[j - start] == c);
        assert(is_hex(d[j - start]));
        let dig: usize = if c >= 48 && c <= 57 {
            (c - 48) as usize
        } else if c >= 97 && c <= 102 {
            (c - 87) as usize
        } else {
            (c - 55) as usize
        };
        proof {
            assert(hex_digit(c) == dig);
            assert(d.take(j - start + 1).drop_last() =~= d.take(j - start));
            assert(d.take(j - start + 1).last() == c);
        }
        if v > (usize::MAX - dig) / 16 {
            proof {
                assert(v * 16 + dig > usize::MAX) by (nonlinear_arith)
                    requires v > (usize::MAX - dig) / 16, dig <= 15;
                lemma_hex_mono(d, j - start + 1);
                assert(hex_value(d.take(j - start + 1)) == v * 16 + dig);
                assert(hex_value(d) > usize::MAX);
            }
            return None;
        }
        assert(v * 16 + dig <= usize::MAX) by (nonlinear_arith)
            requires v <= (usize::MAX - dig) / 16, dig <= 15;
        v = v * 16 + dig;
        j = j + 1;
    }
    assert(d.take(d.len() as int) =~= d);
    Some(v)
}

} // verus!
