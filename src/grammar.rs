//! The grammar generator: a context-free grammar compiled into a flat table of
//! tokens that refer to each other by index, simplified to a fixed point, and
//! expanded into random derivations of bounded depth.
use vstd::prelude::*;
use crate::error::Error;
use crate::prng::Rng;

verus! {

/// The index of a token in the grammar's table.
#[derive(Clone, Copy, Debug, PartialEq, Eq, Structural)]
pub struct TokenIdentifier(pub usize);

/// One entry of the token table.
#[derive(Debug, Clone, PartialEq, Eq)]
pub enum Token {
    /// Tokens expanded one after the other.
    OrderedExpansion(Vec<TokenIdentifier>),
    /// Alternatives of which one is expanded.
    NonTerminal(Vec<TokenIdentifier>),
    /// Bytes emitted as they are.
    Terminal(Vec<u8>),
    /// Emits nothing.
    Nop,
}

/// The rules of a grammar as its JSON file holds them: each non-terminal's name
/// with its expansions, each a list of symbol names.
pub type Rules = Vec<(String, Vec<Vec<String>>)>;

/// The rules that a JSON text describes, in the order of their names, or `None`
/// when the text is no object of arrays of arrays of strings.
pub uninterp spec fn json_rules(text: Seq<char>) -> Option<Seq<(Seq<char>, Seq<Seq<Seq<char>>>)>>;

/// Relies on `serde_json::from_str` into a `BTreeMap<String, Vec<Vec<String>>>`:
/// the result depends on the text alone, and a map holds each name once.
#[verifier::external_body]
fn parse_rules(text: &str) -> (r: Option<Rules>)
    ensures
        r is Some <==> json_rules(text@) is Some,
        r is Some ==> r->Some_0.deep_view() == json_rules(text@)->Some_0,
        r is Some ==> forall|i: int, j: int|
            0 <= i < j < r->Some_0@.len() ==> r->Some_0@[i].0@ != r->Some_0@[j].0@,
{
    serde_json::from_str::<std::collections::BTreeMap<String, Vec<Vec<String>>>>(text).ok().map(
        |m| m.into_iter().collect(),
    )
}

/// Every index that a token holds is below `n`.
pub open spec fn token_in_bounds(t: Token, n: int) -> bool {
    match t {
        Token::OrderedExpansion(ids) => forall|k: int| 0 <= k < ids@.len() ==> ids@[k].0 < n,
        Token::NonTerminal(ids) => forall|k: int| 0 <= k < ids@.len() ==> ids@[k].0 < n,
        _ => true,
    }
}

/// Every index in the table refers to an entry of it.
pub open spec fn table_wf(tokens: Seq<Token>) -> bool {
    forall|i: int| 0 <= i < tokens.len() ==> token_in_bounds(#[trigger] tokens[i], tokens.len() as int)
}

/// Two tokens of the same kind with the same contents.
pub open spec fn same_token(a: Token, b: Token) -> bool {
    match (a, b) {
        (Token::OrderedExpansion(x), Token::OrderedExpansion(y)) => x@ == y@,
        (Token::NonTerminal(x), Token::NonTerminal(y)) => x@ == y@,
        (Token::Terminal(x), Token::Terminal(y)) => x@ == y@,
        (Token::Nop, Token::Nop) => true,
        _ => false,
    }
}

/// No rewrite rule of `optimize` changes token `i` of the table: a non-terminal
/// with one alternative already equals that alternative, an ordered expansion is
/// not empty, and one with a single child already equals that child.
pub open spec fn token_fixed(tokens: Seq<Token>, i: int) -> bool {
    match tokens[i] {
        Token::NonTerminal(ids) => ids@.len() == 1 ==> same_token(tokens[ids@[0].0 as int], tokens[i]),
        Token::OrderedExpansion(ids) => ids@.len() >= 1 && (ids@.len() == 1 ==> same_token(
            tokens[ids@[0].0 as int],
            tokens[i],
        )),
        _ => true,
    }
}

/// No rewrite rule of `optimize` changes any token of the table.
pub open spec fn table_optimized(tokens: Seq<Token>) -> bool {
    forall|i: int| 0 <= i < tokens.len() ==> #[trigger] token_fixed(tokens, i)
}

/// True when two lists of token indices are equal.
fn ids_equal(a: &Vec<TokenIdentifier>, b: &Vec<TokenIdentifier>) -> (r: bool)
    ensures
        r == (a@ == b@),
{
    if a.len() != b.len() {
        return false;
    }
    let mut i: usize = 0;
    while i < a.len()
        invariant
            a@.len() == b@.len(),
            i <= a@.len(),
            forall|k: int| 0 <= k < i ==> a@[k] == b@[k],
        decreases a@.len() - i,
    {
        if a[i].0 != b[i].0 {
            return false;
        }
        i = i + 1;
    }
    assert(a@ =~= b@);
    true
}

/// True when two byte strings are equal.
fn bytes_equal(a: &Vec<u8>, b: &Vec<u8>) -> (r: bool)
    ensures
        r == (a@ == b@),
{
    if a.len() != b.len() {
        return false;
    }
    let mut i: usize = 0;
    while i < a.len()
        invariant
            a@.len() == b@.len(),
            i <= a@.len(),
            forall|k: int| 0 <= k < i ==> a@[k] == b@[k],
        decreases a@.len() - i,
    {
        if a[i] != b[i] {
            return false;
        }
        i = i + 1;
    }
    assert(a@ =~= b@);
    true
}

/// True when two tokens are of the same kind with the same contents.
pub fn tokens_equal(a: &Token, b: &Token) -> (r: bool)
    ensures
        r == same_token(*a, *b),
{
    match (a, b) {
        (Token::OrderedExpansion(x), Token::OrderedExpansion(y)) => ids_equal(x, y),
        (Token::NonTerminal(x), Token::NonTerminal(y)) => ids_equal(x, y),
        (Token::Terminal(x), Token::Terminal(y)) => bytes_equal(x, y),
        (Token::Nop, Token::Nop) => true,
        _ => false,
    }
}

/// A copy of a token.
pub fn copy_token(t: &Token) -> (r: Token)
    ensures
        same_token(r, *t),
{
    match t {
        Token::OrderedExpansion(ids) => Token::OrderedExpansion(copy_ids(ids)),
        Token::NonTerminal(ids) => Token::NonTerminal(copy_ids(ids)),
        Token::Terminal(b) => Token::Terminal(vstd::slice::slice_to_vec(b.as_slice())),
        Token::Nop => Token::Nop,
    }
}

/// A copy of a list of token indices.
fn copy_ids(ids: &Vec<TokenIdentifier>) -> (r: Vec<TokenIdentifier>)
    ensures
        r@ == ids@,
{
    vstd::slice::slice_to_vec(ids.as_slice())
}

/// The deepest level at which `generate` still expands a token.
pub const MAX_DEPTH: usize = 128;

/// The bytes that `generate` emits for token `id` started at `depth` from the
/// generator state `g`, with the state it leaves: below `MAX_DEPTH` a terminal
/// gives its bytes, a non-terminal the expansion of alternative `draw % count`
/// (nothing when it has none), an ordered expansion its children one after the
/// other, `Nop` nothing; deeper than `MAX_DEPTH` nothing is emitted or drawn.
pub open spec fn gen(tokens: Seq<Token>, depth: int, id: int, g: Rng) -> (Seq<u8>, Rng)
    decreases 129 - depth, 0int,
{
    if depth > 128 || depth < 0 {
        (Seq::empty(), g)
    } else {
        match tokens[id] {
            Token::Terminal(b) => (b@, g),
            Token::NonTerminal(options) => if options@.len() == 0 {
                (Seq::empty(), g)
            } else {
                let k = g.draw() as usize as int % options@.len() as int;
                gen(tokens, depth + 1, options@[k].0 as int, g.next())
            },
            Token::OrderedExpansion(ids) => gen_all(tokens, depth + 1, ids@, g),
            Token::Nop => (Seq::empty(), g),
        }
    }
}

/// The expansions of the tokens `ids`, each started at `depth`, one after the
/// other, threading the generator state through them.
pub open spec fn gen_all(tokens: Seq<Token>, depth: int, ids: Seq<TokenIdentifier>, g: Rng) -> (
    Seq<u8>,
    Rng,
)
    decreases 129 - depth, ids.len(),
{
    if ids.len() == 0 || depth > 129 {
        (Seq::empty(), g)
    } else {
        let first = gen_all(tokens, depth, ids.drop_last(), g);
        let last = gen(tokens, depth, ids.last().0 as int, first.1);
        (first.0 + last.0, last.1)
    }
}

/// A token as plain values: kind (0 ordered expansion, 1 non-terminal,
/// 2 terminal, 3 `Nop`), child indices, bytes.
pub type TokenView = (u8, Seq<TokenIdentifier>, Seq<u8>);

pub open spec fn tview(t: Token) -> TokenView {
    match t {
        Token::OrderedExpansion(x) => (0u8, x@, Seq::empty()),
        Token::NonTerminal(x) => (1u8, x@, Seq::empty()),
        Token::Terminal(b) => (2u8, Seq::empty(), b@),
        Token::Nop => (3u8, Seq::empty(), Seq::empty()),
    }
}

pub open spec fn table_view(ts: Seq<Token>) -> Seq<TokenView> {
    ts.map_values(|t: Token| tview(t))
}

/// The children that are not marked in `nops`, in order.
pub open spec fn kept_children(ids: Seq<TokenIdentifier>, nops: Seq<bool>) -> Seq<TokenIdentifier>
    decreases ids.len(),
{
    if ids.len() == 0 {
        ids
    } else {
        let rest = kept_children(ids.drop_last(), nops);
        if !nops[ids.last().0 as int] {
            rest.push(ids.last())
        } else {
            rest
        }
    }
}

/// The first rules at index `i`: a non-terminal with one alternative becomes a copy
/// of it, an empty ordered expansion becomes `Nop` (and is marked), an ordered
/// expansion with one child becomes a copy of it; a copy that changes nothing is
/// no change.
pub open spec fn rewrite_first(v: Seq<TokenView>, nops: Seq<bool>, ch: bool, i: int) -> (
    Seq<TokenView>,
    Seq<bool>,
    bool,
) {
    let cur = v[i];
    if cur.0 == 1 && cur.1.len() == 1 && v[cur.1[0].0 as int] != cur {
        (v.update(i, v[cur.1[0].0 as int]), nops, true)
    } else if cur.0 == 0 && cur.1.len() == 0 {
        (v.update(i, (3u8, Seq::empty(), Seq::empty())), nops.update(i, true), true)
    } else if cur.0 == 0 && cur.1.len() == 1 && v[cur.1[0].0 as int] != cur {
        (v.update(i, v[cur.1[0].0 as int]), nops, true)
    } else {
        (v, nops, ch)
    }
}

/// The last rule at index `i`: an ordered expansion drops its marked children.
pub open spec fn rewrite_second(v: Seq<TokenView>, nops: Seq<bool>, ch: bool, i: int) -> (
    Seq<TokenView>,
    Seq<bool>,
    bool,
) {
    let now = v[i];
    if now.0 == 0 && kept_children(now.1, nops).len() != now.1.len() {
        (v.update(i, (0u8, kept_children(now.1, nops), Seq::empty())), nops, true)
    } else {
        (v, nops, ch)
    }
}

/// One pass over the indices below `k`, from a table, its marks and no change.
pub open spec fn rewrite_upto(v: Seq<TokenView>, nops: Seq<bool>, k: nat) -> (
    Seq<TokenView>,
    Seq<bool>,
    bool,
)
    decreases k,
{
    if k == 0 {
        (v, nops, false)
    } else {
        let p = rewrite_upto(v, nops, (k - 1) as nat);
        let a = rewrite_first(p.0, p.1, p.2, k - 1);
        rewrite_second(a.0, a.1, a.2, k - 1)
    }
}

/// Passes until one changes nothing, at most `left` of them: the final table, and
/// whether a pass that changed nothing was reached.
pub open spec fn rewrite_rounds(v: Seq<TokenView>, nops: Seq<bool>, left: nat) -> (
    Seq<TokenView>,
    bool,
)
    decreases left,
{
    if left == 0 {
        (v, false)
    } else {
        let r = rewrite_upto(v, nops, v.len());
        if !r.2 {
            (r.0, true)
        } else {
            rewrite_rounds(r.0, r.1, (left - 1) as nat)
        }
    }
}

/// What `optimize` makes of a table, and whether it reaches the fixed point within
/// `usize::MAX` passes.
pub open spec fn optimized(tokens: Seq<Token>) -> (Seq<TokenView>, bool) {
    rewrite_rounds(table_view(tokens), Seq::new(tokens.len(), |i: int| false), usize::MAX as nat)
}

/// A compiled grammar.
#[derive(Debug, Default, PartialEq, Eq)]
pub struct Grammar {
    /// The token of `<start>`.
    pub start: Option<TokenIdentifier>,
    /// The token table.
    pub tokens: Vec<Token>,
    /// Each non-terminal's name with its token. A vector of pairs whose names are
    /// unique (see `compile`) and looked up in order: a `BTreeMap` keyed by `String`
    /// was not used, as its lookups give no proved result with such keys.
    pub token_map: Vec<(String, TokenIdentifier)>,
}

/// The name of the start symbol.
pub open spec fn start_name() -> Seq<char> {
    seq!['<', 's', 't', 'a', 'r', 't', '>']
}

impl Grammar {
    /// The table is well formed and the start token, if set, is in it.
    pub open spec fn wf(&self) -> bool {
        &&& table_wf(self.tokens@)
        &&& self.start matches Some(s) ==> s.0 < self.tokens@.len()
        &&& forall|i: int|
            0 <= i < self.token_map@.len() ==> (#[trigger] self.token_map@[i]).1.0
                < self.tokens@.len()
    }

    /// Appends a token to the table and returns its index.
    pub fn allocate_token(&mut self, token: Token) -> (r: TokenIdentifier)
        ensures
            r.0 == old(self).tokens@.len(),
            final(self).tokens@ == old(self).tokens@.push(token),
            final(self).start == old(self).start,
            final(self).token_map@ == old(self).token_map@,
    {
        let token_id = TokenIdentifier(self.tokens.len());
        self.tokens.push(token);
        token_id
    }

    /// The token at `id`.
    pub fn get_token(&self, id: TokenIdentifier) -> (r: &Token)
        requires
            id.0 < self.tokens@.len(),
        ensures
            *r == self.tokens@[id.0 as int],
    {
        &self.tokens[id.0]
    }

    /// The token that a name maps to, if any.
    pub fn lookup(&self, name: &String) -> (r: Option<TokenIdentifier>)
        ensures
            r is Some <==> exists|i: int|
                0 <= i < self.token_map@.len() && (#[trigger] self.token_map@[i]).0@ == name@,
            r matches Some(id) ==> exists|i: int|
                0 <= i < self.token_map@.len() && (#[trigger] self.token_map@[i]).0@ == name@
                    && self.token_map@[i].1 == id,
    {
        let mut i: usize = 0;
        while i < self.token_map.len()
            invariant
                i <= self.token_map@.len(),
                forall|k: int| 0 <= k < i ==> (#[trigger] self.token_map@[k]).0@ != name@,
            decreases self.token_map@.len() - i,
        {
            if self.token_map[i].0 == *name {
                return Some(self.token_map[i].1);
            }
            i = i + 1;
        }
        None
    }

    /// One pass of the rewrite rules over the table, in index order:
    /// a non-terminal with one alternative becomes a copy of that alternative; an
    /// empty ordered expansion becomes `Nop` and is recorded in `nops`; an ordered
    /// expansion with one child becomes a copy of that child; an ordered expansion
    /// drops the children recorded in `nops`. Returns whether anything changed.
    fn optimize_round(&mut self, nops: &mut Vec<bool>) -> (changed: bool)
        requires
            old(self).wf(),
            old(nops)@.len() == old(self).tokens@.len(),
        ensures
            final(self).wf(),
            final(self).start == old(self).start,
            final(self).token_map == old(self).token_map,
            final(self).tokens@.len() == old(self).tokens@.len(),
            final(nops)@.len() == old(nops)@.len(),
            !changed ==> final(self).tokens@ == old(self).tokens@ && table_optimized(
                final(self).tokens@,
            ),
            table_optimized(old(self).tokens@) && (forall|j: int|
                0 <= j < old(nops)@.len() ==> !(#[trigger] old(nops)@[j])) ==> !changed && (forall|
                j: int,
            |
                0 <= j < final(nops)@.len() ==> !(#[trigger] final(nops)@[j])),
            (table_view(final(self).tokens@), final(nops)@, changed) == rewrite_upto(
                table_view(old(self).tokens@),
                old(nops)@,
                old(self).tokens@.len(),
            ),
    {
        let ghost start = self.tokens@;
        let n = self.tokens.len();
        let mut changed = false;
        let mut idx: usize = 0;
        while idx < n
            invariant
                self.wf(),
                self.start == old(self).start,
                self.token_map == old(self).token_map,
                n == self.tokens@.len(),
                nops@.len() == n,
                idx <= n,
                !changed ==> self.tokens@ == start,
                start.len() == n,
                (table_view(self.tokens@), nops@, changed) == rewrite_upto(
                    table_view(start),
                    old(nops)@,
                    idx as nat,
                ),
                !changed ==> forall|j: int| 0 <= j < idx ==> #[trigger] token_fixed(start, j),
                table_optimized(start) && (forall|j: int|
                    0 <= j < old(nops)@.len() ==> !(#[trigger] old(nops)@[j])) ==> !changed && (
                forall|j: int| 0 <= j < nops@.len() ==> !(#[trigger] nops@[j])),
            decreases n - idx,
        {
            let ghost before = self.tokens@;
            let ghost nb = nops@;
            let ghost cb = changed;
            proof {
                if table_optimized(start) {
                    assert(token_fixed(start, idx as int));
                }
            }
            let current = copy_token(&self.tokens[idx]);
            match current {
                Token::NonTerminal(options) => {
                    if options.len() == 1 {
                        assert(token_in_bounds(before[idx as int], n as int));
                        let t = copy_token(&self.tokens[options[0].0]);
                        assert(token_in_bounds(t, n as int));
                        if !tokens_equal(&t, &self.tokens[idx]) {
                            self.tokens[idx] = t;
                            changed = true;
                        }
                    }
                },
                Token::OrderedExpansion(expansions) => {
                    if expansions.len() == 0 {
                        self.tokens[idx] = Token::Nop;
                        changed = true;
                        nops[idx] = true;
                    }
                    if expansions.len() == 1 {
                        assert(token_in_bounds(before[idx as int], n as int));
                        let t = copy_token(&self.tokens[expansions[0].0]);
                        assert(token_in_bounds(t, n as int));
                        if !tokens_equal(&t, &self.tokens[idx]) {
                            self.tokens[idx] = t;
                            changed = true;
                        }
                    }
                },
                _ => {},
            }
            proof {
                assert forall|j: int| 0 <= j < n implies token_in_bounds(
                    #[trigger] self.tokens@[j],
                    n as int,
                ) by {
                    if j != idx {
                        assert(token_in_bounds(before[j], n as int));
                    }
                }
                let v = table_view(before);
                let f = rewrite_first(v, nb, cb, idx as int);
                assert(table_view(self.tokens@) =~= f.0);
                assert(nops@ =~= f.1);
                assert(changed == f.2);
            }
            let ghost mid1 = self.tokens@;
            let ghost nb1 = nops@;
            let ghost cb1 = changed;
            let now = copy_token(&self.tokens[idx]);
            if let Token::OrderedExpansion(children) = now {
                assert(token_in_bounds(self.tokens@[idx as int], n as int));
                let mut kept: Vec<TokenIdentifier> = Vec::new();
                let mut k: usize = 0;
                while k < children.len()
                    invariant
                        k <= children@.len(),
                        nops@.len() == n,
                        kept@ == kept_children(children@.take(k as int), nops@),
                        kept@.len() <= k,
                        forall|j: int| 0 <= j < children@.len() ==> (#[trigger] children@[j]).0 < n,
                        forall|j: int| 0 <= j < kept@.len() ==> (#[trigger] kept@[j]).0 < n,
                        kept@.len() == k ==> kept@ == children@.subrange(0, k as int),
                        (forall|j: int| 0 <= j < nops@.len() ==> !(#[trigger] nops@[j]))
                            ==> kept@.len() == k,
                    decreases children@.len() - k,
                {
                    proof {
                        assert(children@.take(k + 1).drop_last() =~= children@.take(k as int));
                    }
                    if !nops[children[k].0] {
                        kept.push(children[k]);
                    }
                    k = k + 1;
                }
                assert(children@.take(children@.len() as int) =~= children@);
                if kept.len() != children.len() {
                    let ghost mid = self.tokens@;
                    let ghost kv = kept@;
                    self.tokens[idx] = Token::OrderedExpansion(kept);
                    changed = true;
                    proof {
                        assert(table_view(self.tokens@) =~= table_view(mid).update(
                            idx as int,
                            (0u8, kv, Seq::empty()),
                        ));
                    }
                    proof {
                        assert forall|j: int| 0 <= j < n implies token_in_bounds(
                            #[trigger] self.tokens@[j],
                            n as int,
                        ) by {
                            if j != idx {
                                assert(token_in_bounds(mid[j], n as int));
                            }
                        }
                    }
                } else {
                    assert(children@.subrange(0, children@.len() as int) =~= children@);
                }
            }
            proof {
                let a = rewrite_second(table_view(mid1), nb1, cb1, idx as int);
                assert(table_view(self.tokens@) =~= a.0);
                assert(nops@ =~= a.1);
                assert(changed == a.2);
            }
            idx = idx + 1;
        }
        changed
    }

    /// Applies the rewrite rules of `optimize_round` until a pass changes nothing,
    /// and returns whether that happened within `usize::MAX` passes. When it did, no
    /// rule applies to the table any more; a table to which no rule applies is left
    /// as it is, so that a second run changes nothing.
    pub fn optimize(&mut self) -> (converged: bool)
        requires
            old(self).wf(),
        ensures
            final(self).wf(),
            final(self).start == old(self).start,
            final(self).token_map == old(self).token_map,
            final(self).tokens@.len() == old(self).tokens@.len(),
            converged ==> table_optimized(final(self).tokens@),
            table_view(final(self).tokens@) == optimized(old(self).tokens@).0,
            converged == optimized(old(self).tokens@).1,
            table_optimized(old(self).tokens@) ==> converged && final(self).tokens@
                == old(self).tokens@,
    {
        // The tokens turned into `Nop` by this run, as one flag per table index.
        let mut nops: Vec<bool> = Vec::new();
        let mut i: usize = 0;
        while i < self.tokens.len()
            invariant
                i <= self.tokens@.len(),
                nops@.len() == i,
                forall|j: int| 0 <= j < nops@.len() ==> !(#[trigger] nops@[j]),
            decreases self.tokens@.len() - i,
        {
            nops.push(false);
            i = i + 1;
        }
        assert(nops@ =~= Seq::new(self.tokens@.len(), |i: int| false));
        let mut rounds: usize = 0;
        let mut changed = true;
        while changed && rounds < usize::MAX
            invariant
                self.wf(),
                self.start == old(self).start,
                self.token_map == old(self).token_map,
                self.tokens@.len() == old(self).tokens@.len(),
                nops@.len() == self.tokens@.len(),
                !changed ==> table_optimized(self.tokens@),
                rounds == 0 ==> changed,
                changed ==> optimized(old(self).tokens@) == rewrite_rounds(
                    table_view(self.tokens@),
                    nops@,
                    (usize::MAX - rounds) as nat,
                ),
                !changed ==> optimized(old(self).tokens@) == (table_view(self.tokens@), true),
                rounds == 0 ==> self.tokens@ == old(self).tokens@ && nops@ == Seq::new(
                    self.tokens@.len(),
                    |i: int| false,
                ),
                table_optimized(old(self).tokens@) ==> self.tokens@ == old(self).tokens@
                    && (forall|j: int| 0 <= j < nops@.len() ==> !(#[trigger] nops@[j])) && (rounds
                    > 0 ==> !changed),
            decreases usize::MAX - rounds,
        {
            let ghost v = table_view(self.tokens@);
            let ghost nb = nops@;
            proof {
                assert(v.len() == self.tokens@.len());
            }
            changed = self.optimize_round(&mut nops);
            rounds = rounds + 1;
        }
        !changed
    }

    /// Parses a grammar from its JSON text and compiles it. Fails when the text is
    /// no object of arrays of arrays of strings, or when it has no `<start>` rule.
    pub fn new(json: &str) -> (r: Result<Grammar, Error>)
        ensures
            json_rules(json@) is None ==> r is Err,
            json_rules(json@) is Some ==> (r is Ok <==> exists|i: int|
                0 <= i < json_rules(json@)->Some_0.len() && (#[trigger] json_rules(
                    json@,
                )->Some_0[i]).0 == start_name()),
            json_rules(json@) is Some && r is Ok ==> r->Ok_0.token_map@.len() == json_rules(
                json@,
            )->Some_0.len() && forall|i: int|
                0 <= i < json_rules(json@)->Some_0.len() ==> (#[trigger] r->Ok_0.token_map@[i]).0@
                    == json_rules(json@)->Some_0[i].0,
            r is Ok ==> r->Ok_0.wf() && r->Ok_0.start is Some,
            r is Ok ==> exists|i: int|
                0 <= i < r->Ok_0.token_map@.len() && (#[trigger] r->Ok_0.token_map@[i]).0@
                    == start_name() && r->Ok_0.start == Some(r->Ok_0.token_map@[i].1),
    {
        match parse_rules(json) {
            Some(rules) => {
                proof {
                    let rs = json_rules(json@)->Some_0;
                    assert forall|i: int| 0 <= i < rules@.len() implies (#[trigger] rules@[i]).0@
                        == rs[i].0 by {
                        assert(rules.deep_view()[i] == rules@[i].deep_view());
                    }
                }
                Grammar::compile(&rules)
            },
            None => Err(Error::new("Could not parse grammar")),
        }
    }

    /// Appends to `out` a random derivation of token `id` started at `depth`
    /// (see `gen`): recursion stops beyond `MAX_DEPTH`.
    pub fn generate(&self, depth: usize, id: TokenIdentifier, prng: &mut Rng, out: &mut Vec<u8>)
        requires
            self.wf(),
            id.0 < self.tokens@.len(),
        ensures
            final(out)@ == old(out)@ + gen(self.tokens@, depth as int, id.0 as int, *old(prng)).0,
            *final(prng) == gen(self.tokens@, depth as int, id.0 as int, *old(prng)).1,
            final(prng).exponential == old(prng).exponential,
        decreases 129 - depth,
    {
        let ghost base = out@;
        let ghost g0 = *prng;
        if depth > MAX_DEPTH {
            assert(out@ =~= base + Seq::<u8>::empty());
            return;
        }
        assert(token_in_bounds(self.tokens@[id.0 as int], self.tokens@.len() as int));
        match self.get_token(id) {
            Token::Terminal(terminal) => {
                let mut k: usize = 0;
                while k < terminal.len()
                    invariant
                        k <= terminal@.len(),
                        out@ == base + terminal@.take(k as int),
                    decreases terminal@.len() - k,
                {
                    out.push(terminal[k]);
                    k = k + 1;
                    assert(terminal@.take(k as int) =~= terminal@.take(k - 1).push(terminal@[k - 1]));
                }
                assert(terminal@.take(terminal@.len() as int) =~= terminal@);
            },
            Token::NonTerminal(options) => {
                if options.len() == 0 {
                    assert(out@ =~= base + Seq::<u8>::empty());
                    return;
                }
                let option = prng.pick(options.as_slice());
                self.generate(depth + 1, option, prng, out);
            },
            Token::OrderedExpansion(expansions) => {
                let mut k: usize = 0;
                assert(out@ =~= base + Seq::<u8>::empty());
                assert(expansions@.take(0) =~= Seq::<TokenIdentifier>::empty());
                while k < expansions.len()
                    invariant
                        self.wf(),
                        depth <= MAX_DEPTH,
                        k <= expansions@.len(),
                        forall|j: int| 0 <= j < expansions@.len() ==> (#[trigger] expansions@[j]).0 < self.tokens@.len(),
                        out@ == base + gen_all(self.tokens@, depth + 1, expansions@.take(k as int), g0).0,
                        *prng == gen_all(self.tokens@, depth + 1, expansions@.take(k as int), g0).1,
                        prng.exponential == g0.exponential,
                    decreases expansions@.len() - k,
                {
                    proof {
                        assert(expansions@.take(k + 1).drop_last() =~= expansions@.take(k as int));
                        assert(expansions@.take(k + 1).last() == expansions@[k as int]);
                    }
                    self.generate(depth + 1, expansions[k], prng, out);
                    k = k + 1;
                    proof {
                        let prev = gen_all(self.tokens@, depth + 1, expansions@.take(k - 1), g0);
                        let last = gen(self.tokens@, depth + 1, expansions@[k - 1].0 as int, prev.1);
                        assert(out@ =~= base + (prev.0 + last.0));
                    }
                }
                assert(expansions@.take(expansions@.len() as int) =~= expansions@);
            },
            Token::Nop => {
                assert(out@ =~= base + Seq::<u8>::empty());
            },
        }
    }

    /// Compiles rules into a grammar: one non-terminal per name, then for each
    /// expansion an ordered expansion whose children are the named non-terminals
    /// or fresh terminals; then simplifies it. Fails when no rule is named
    /// `<start>`.
    pub fn compile(rules: &Rules) -> (r: Result<Grammar, Error>)
        requires
            forall|i: int, j: int|
                0 <= i < j < rules@.len() ==> rules@[i].0@ != rules@[j].0@,
        ensures
            r is Ok ==> r->Ok_0.wf() && r->Ok_0.start is Some,
            r is Ok ==> r->Ok_0.token_map@.len() == rules@.len() && forall|i: int|
                0 <= i < rules@.len() ==> (#[trigger] r->Ok_0.token_map@[i]).0@ == rules@[i].0@,
            r is Err <==> (forall|i: int| 0 <= i < rules@.len() ==> (#[trigger] rules@[i]).0@
                != start_name()),
            r is Ok ==> exists|i: int|
                0 <= i < rules@.len() && (#[trigger] rules@[i]).0@ == start_name()
                    && r->Ok_0.start == Some(r->Ok_0.token_map@[i].1),
    {
        let mut g = Grammar { start: None, tokens: Vec::new(), token_map: Vec::new() };
        let n = rules.len();
        let mut i: usize = 0;
        while i < n
            invariant
                n == rules@.len(),
                i <= n,
                g.tokens@.len() == i,
                g.token_map@.len() == i,
                g.start is None,
                forall|k: int| 0 <= k < i ==> (#[trigger] g.tokens@[k]) is NonTerminal && g.tokens@[k]->NonTerminal_0@.len() == 0,
                forall|k: int| 0 <= k < i ==> (#[trigger] g.token_map@[k]).0@ == rules@[k].0@ && g.token_map@[k].1.0 == k,
            decreases n - i,
        {
            let id = g.allocate_token(Token::NonTerminal(Vec::new()));
            g.token_map.push((rules[i].0.clone(), id));
            i = i + 1;
        }
        proof {
            assert(table_wf(g.tokens@));
        }
        let mut i: usize = 0;
        while i < n
            invariant
                n == rules@.len(),
                i <= n,
                n <= g.tokens@.len(),
                g.token_map@.len() == n,
                g.start is None,
                table_wf(g.tokens@),
                forall|k: int| 0 <= k < n ==> (#[trigger] g.token_map@[k]).0@ == rules@[k].0@ && g.token_map@[k].1.0 == k,
            decreases n - i,
        {
            let expansions = &rules[i].1;
            let mut ordered_exp: Vec<TokenIdentifier> = Vec::new();
            let mut e: usize = 0;
            while e < expansions.len()
                invariant
                    n == rules@.len(),
                    i < n,
                    n <= g.tokens@.len(),
                    g.token_map@.len() == n,
                    g.start is None,
                    table_wf(g.tokens@),
                    forall|k: int| 0 <= k < n ==> (#[trigger] g.token_map@[k]).0@ == rules@[k].0@ && g.token_map@[k].1.0 == k,
                    e <= expansions@.len(),
                    forall|k: int| 0 <= k < ordered_exp@.len() ==> (#[trigger] ordered_exp@[k]).0 < g.tokens@.len(),
                decreases expansions@.len() - e,
            {
                let symbols = &expansions[e];
                let mut children: Vec<TokenIdentifier> = Vec::new();
                let mut k: usize = 0;
                while k < symbols.len()
                    invariant
                        n == rules@.len(),
                        i < n,
                        n <= g.tokens@.len(),
                        g.token_map@.len() == n,
                        g.start is None,
                        table_wf(g.tokens@),
                        forall|k: int| 0 <= k < n ==> (#[trigger] g.token_map@[k]).0@ == rules@[k].0@ && g.token_map@[k].1.0 == k,
                        k <= symbols@.len(),
                        forall|j: int| 0 <= j < children@.len() ==> (#[trigger] children@[j]).0 < g.tokens@.len(),
                        forall|j: int| 0 <= j < ordered_exp@.len() ==> (#[trigger] ordered_exp@[j]).0 < g.tokens@.len(),
                    decreases symbols@.len() - k,
                {
                    let token = match g.lookup(&symbols[k]) {
                        Some(nt) => {
                            let v: Vec<TokenIdentifier> = vec![nt];
                            Token::NonTerminal(v)
                        },
                        None => Token::Terminal(vstd::slice::slice_to_vec(symbols[k].as_str().as_bytes())),
                    };
                    let ghost before = g.tokens@;
                    let id = g.allocate_token(token);
                    proof {
                        assert forall|j: int| 0 <= j < g.tokens@.len() implies token_in_bounds(
                            #[trigger] g.tokens@[j],
                            g.tokens@.len() as int,
                        ) by {
                            if j < before.len() {
                                assert(token_in_bounds(before[j], before.len() as int));
                            }
                        }
                    }
                    children.push(id);
                    k = k + 1;
                }
                let ghost before = g.tokens@;
                let id = g.allocate_token(Token::OrderedExpansion(children));
                proof {
                    assert forall|j: int| 0 <= j < g.tokens@.len() implies token_in_bounds(
                        #[trigger] g.tokens@[j],
                        g.tokens@.len() as int,
                    ) by {
                        if j < before.len() {
                            assert(token_in_bounds(before[j], before.len() as int));
                        }
                    }
                }
                ordered_exp.push(id);
                e = e + 1;
            }
            let ghost before = g.tokens@;
            g.tokens[i] = Token::NonTerminal(ordered_exp);
            proof {
                assert forall|j: int| 0 <= j < g.tokens@.len() implies token_in_bounds(
                    #[trigger] g.tokens@[j],
                    g.tokens@.len() as int,
                ) by {
                    if j != i {
                        assert(token_in_bounds(before[j], before.len() as int));
                    }
                }
            }
            i = i + 1;
        }
        let start_key = String::from_str("<start>");
        proof {
            reveal_strlit("<start>");
            assert(start_key@ =~= start_name());
        }
        let start = g.lookup(&start_key);
        if start.is_none() {
            assert forall|i: int| 0 <= i < rules@.len() implies (#[trigger] rules@[i]).0@
                != start_name() by {
                assert(g.token_map@[i].0@ == rules@[i].0@);
            }
            return Err(Error::new("Grammar has no <start> rule"));
        }
        g.start = start;
        g.optimize();
        Ok(g)
    }
}

} // verus!
