//! Laws of the alias system: when no alias can reach itself through
//! references, alias substitution expands every reference completely and
//! reports no circular reference, whatever the order in which the aliases
//! were added, provided braces occur in the SQL and in the contents only as
//! parts of references `{{name}}`.
use vstd::prelude::*;

use crate::alias::{
    alias_pattern, key_index, keys_unique, lemma_key_index, lemma_key_index_unique, subst_pass,
    subst_rounds, substitution_outcome, substitution_result, Entries,
};
use crate::alias_cycles::{
    brace_free, lemma_no_overlap, lemma_occurs_in_middle, lemma_replace_prefix, names_brace_free,
};
use crate::text::{contains_pat, occurs_at, replace_all};

verus! {

/// A piece of text: one character other than a brace, or a reference
/// `{{name}}` to a brace-free name.
pub enum Token {
    Char(char),
    Ref(Seq<char>),
}

pub open spec fn token_text(t: Token) -> Seq<char> {
    match t {
        Token::Char(c) => seq![c],
        Token::Ref(w) => alias_pattern(w),
    }
}

pub open spec fn token_ok(t: Token) -> bool {
    match t {
        Token::Char(c) => c != '{' && c != '}',
        Token::Ref(w) => brace_free(w),
    }
}

pub open spec fn tokens_ok(ts: Seq<Token>) -> bool {
    forall|k: int| 0 <= k < ts.len() ==> token_ok(#[trigger] ts[k])
}

/// The text of a sequence of tokens.
pub open spec fn flatten(ts: Seq<Token>) -> Seq<char>
    decreases ts.len(),
{
    if ts.len() == 0 {
        Seq::empty()
    } else {
        token_text(ts[0]) + flatten(ts.skip(1))
    }
}

/// The tokens with every reference to `name` replaced by `content`.
pub open spec fn subst_tokens(ts: Seq<Token>, name: Seq<char>, content: Seq<Token>) -> Seq<Token>
    decreases ts.len(),
{
    if ts.len() == 0 {
        Seq::empty()
    } else {
        (if ts[0] == Token::Ref(name) {
            content
        } else {
            seq![ts[0]]
        }) + subst_tokens(ts.skip(1), name, content)
    }
}

proof fn lemma_flatten_single(t: Token)
    ensures
        flatten(seq![t]) == token_text(t),
{
    let one = seq![t];
    assert(one.skip(1) =~= Seq::<Token>::empty());
    assert(flatten(one.skip(1)) == Seq::<char>::empty());
    assert(token_text(t) + Seq::<char>::empty() =~= token_text(t));
}

proof fn lemma_flatten_concat(a: Seq<Token>, b: Seq<Token>)
    ensures
        flatten(a + b) == flatten(a) + flatten(b),
    decreases a.len(),
{
    if a.len() == 0 {
        assert(a + b =~= b);
        assert(flatten(a) + flatten(b) =~= flatten(b));
    } else {
        assert((a + b).skip(1) =~= a.skip(1) + b);
        lemma_flatten_concat(a.skip(1), b);
        assert(token_text(a[0]) + (flatten(a.skip(1)) + flatten(b)) =~= (token_text(a[0])
            + flatten(a.skip(1))) + flatten(b));
    }
}

/// Each token of a substitution comes from the tokens (other than the
/// references replaced) or from the content.
proof fn lemma_subst_members(ts: Seq<Token>, name: Seq<char>, content: Seq<Token>)
    ensures
        forall|x: Token|
            #![trigger subst_tokens(ts, name, content).contains(x)]
            subst_tokens(ts, name, content).contains(x) ==> (ts.contains(x) && x != Token::Ref(
                name,
            )) || content.contains(x),
    decreases ts.len(),
{
    if ts.len() > 0 {
        lemma_subst_members(ts.skip(1), name, content);
        let head = if ts[0] == Token::Ref(name) {
            content
        } else {
            seq![ts[0]]
        };
        let rest = subst_tokens(ts.skip(1), name, content);
        assert forall|x: Token| #[trigger] (head + rest).contains(x) implies (ts.contains(x) && x
            != Token::Ref(name)) || content.contains(x) by {
            let i = choose|i: int| 0 <= i < (head + rest).len() && (head + rest)[i] == x;
            if i < head.len() {
                if ts[0] == Token::Ref(name) {
                    assert(content[i] == x);
                } else {
                    assert(ts[0] == x);
                }
            } else {
                assert(rest[i - head.len()] == x);
                assert(rest.contains(x));
                if ts.skip(1).contains(x) {
                    let j = choose|j: int| 0 <= j < ts.skip(1).len() && ts.skip(1)[j] == x;
                    assert(ts[j + 1] == x);
                }
            }
        }
    }
}

proof fn lemma_subst_ok(ts: Seq<Token>, name: Seq<char>, content: Seq<Token>)
    requires
        tokens_ok(ts),
        tokens_ok(content),
    ensures
        tokens_ok(subst_tokens(ts, name, content)),
{
    lemma_subst_members(ts, name, content);
    let r = subst_tokens(ts, name, content);
    assert forall|k: int| 0 <= k < r.len() implies token_ok(#[trigger] r[k]) by {
        assert(r.contains(r[k]));
        if ts.contains(r[k]) {
            let i = choose|i: int| 0 <= i < ts.len() && ts[i] == r[k];
            assert(token_ok(ts[i]));
        } else {
            let i = choose|i: int| 0 <= i < content.len() && content[i] == r[k];
            assert(token_ok(content[i]));
        }
    }
}

/// `replace_all` on the text of tokens replaces exactly the reference
/// tokens to the name.
proof fn lemma_replace_tokens(ts: Seq<Token>, name: Seq<char>, content: Seq<Token>)
    requires
        tokens_ok(ts),
        brace_free(name),
    ensures
        replace_all(flatten(ts), alias_pattern(name), flatten(content)) == flatten(
            subst_tokens(ts, name, content),
        ),
    decreases ts.len(),
{
    let s = flatten(ts);
    let p = alias_pattern(name);
    if ts.len() == 0 {
    } else {
        let t0 = ts[0];
        let tt = token_text(t0);
        let rest = ts.skip(1);
        assert(tokens_ok(rest)) by {
            assert forall|k: int| 0 <= k < rest.len() implies token_ok(#[trigger] rest[k]) by {
                assert(rest[k] == ts[k + 1]);
            }
        }
        lemma_replace_tokens(rest, name, content);
        assert(token_ok(ts[0]));
        assert(s == tt + flatten(rest));
        assert(s.subrange(0, tt.len() as int) =~= tt);
        assert(s.skip(tt.len() as int) =~= flatten(rest));
        let head = if t0 == Token::Ref(name) {
            content
        } else {
            seq![t0]
        };
        assert(subst_tokens(ts, name, content) == head + subst_tokens(rest, name, content));
        lemma_flatten_concat(head, subst_tokens(rest, name, content));
        match t0 {
            Token::Char(c) => {
                assert(s[0] == c);
                if p.len() <= s.len() && s.take(p.len() as int) == p {
                    assert(s.take(p.len() as int)[0] == p[0]);
                }
                lemma_flatten_single(t0);
                assert(s.skip(1) =~= flatten(rest));
            },
            Token::Ref(w) => {
                if w == name {
                    assert(s.take(p.len() as int) =~= p);
                    assert(s.skip(p.len() as int) =~= flatten(rest));
                } else {
                    assert(occurs_at(s, alias_pattern(w), 0));
                    assert forall|j: int| 0 <= j < tt.len() implies !occurs_at(s, p, j) by {
                        if occurs_at(s, p, j) {
                            lemma_no_overlap(s, w, name, 0, j);
                        }
                    }
                    lemma_replace_prefix(s, p, flatten(content), tt.len() as int);
                    assert(s.take(tt.len() as int) =~= tt);
                    lemma_flatten_single(t0);
                }
            },
        }
    }
}

proof fn lemma_tokens_rest(ts: Seq<Token>)
    requires
        tokens_ok(ts),
        ts.len() > 0,
    ensures
        tokens_ok(ts.skip(1)),
        token_ok(ts[0]),
        flatten(ts) == token_text(ts[0]) + flatten(ts.skip(1)),
{
    let rest = ts.skip(1);
    assert forall|k: int| 0 <= k < rest.len() implies token_ok(#[trigger] rest[k]) by {
        assert(rest[k] == ts[k + 1]);
    }
}

/// A reference `{{name}}` occurs in the text of tokens exactly when a token
/// is that reference.
proof fn lemma_ref_occurs(ts: Seq<Token>, name: Seq<char>)
    requires
        tokens_ok(ts),
        brace_free(name),
    ensures
        contains_pat(flatten(ts), alias_pattern(name)) <==> ts.contains(Token::Ref(name)),
    decreases ts.len(),
{
    let p = alias_pattern(name);
    if ts.len() == 0 {
        if contains_pat(flatten(ts), p) {
            let j = choose|j: int| occurs_at(flatten(ts), p, j);
            assert(flatten(ts).len() == 0);
        }
    } else {
        lemma_tokens_rest(ts);
        let t0 = ts[0];
        let tt = token_text(t0);
        let rest = ts.skip(1);
        let fr = flatten(rest);
        let s = flatten(ts);
        lemma_ref_occurs(rest, name);
        if ts.contains(Token::Ref(name)) {
            if t0 == Token::Ref(name) {
                assert(s.subrange(0, p.len() as int) =~= p);
                assert(occurs_at(s, p, 0));
            } else {
                let i = choose|i: int| 0 <= i < ts.len() && ts[i] == Token::Ref(name);
                assert(rest[i - 1] == Token::Ref(name));
                assert(rest.contains(Token::Ref(name)));
                let j = choose|j: int| occurs_at(fr, p, j);
                lemma_occurs_in_middle(tt, fr, Seq::empty(), p, j);
                assert(tt + fr + Seq::<char>::empty() =~= s);
            }
        }
        if contains_pat(s, p) {
            let j = choose|j: int| occurs_at(s, p, j);
            if j < tt.len() {
                match t0 {
                    Token::Char(c) => {
                        assert(s[0] == c);
                        assert(s.subrange(j, j + p.len())[0] == p[0]);
                    },
                    Token::Ref(w) => {
                        assert(s.subrange(0, tt.len() as int) =~= tt);
                        assert(occurs_at(s, alias_pattern(w), 0));
                        if w != name {
                            lemma_no_overlap(s, w, name, 0, j);
                        }
                        assert(ts[0] == Token::Ref(name));
                    },
                }
            } else {
                assert(fr.subrange(j - tt.len(), j - tt.len() + p.len()) =~= s.subrange(
                    j,
                    j + p.len(),
                ));
                assert(occurs_at(fr, p, j - tt.len()));
                let i = choose|i: int| 0 <= i < rest.len() && rest[i] == Token::Ref(name);
                assert(ts[i + 1] == Token::Ref(name));
            }
        }
    }
}

/// The full expansion of tokens: each reference to an alias replaced by the
/// expansion of that alias's content (`fuel` bounds the nesting), other
/// tokens kept.
pub open spec fn expand_tokens(e: Entries, cts: Seq<Seq<Token>>, ts: Seq<Token>, fuel: nat) -> Seq<
    Token,
>
    decreases fuel, ts.len(),
{
    if ts.len() == 0 {
        Seq::empty()
    } else {
        let head = match ts[0] {
            Token::Ref(w) => {
                let j = key_index(e, w);
                if 0 <= j < cts.len() && fuel > 0 {
                    expand_tokens(e, cts, cts[j], (fuel - 1) as nat)
                } else {
                    seq![ts[0]]
                }
            },
            _ => seq![ts[0]],
        };
        head + expand_tokens(e, cts, ts.skip(1), fuel)
    }
}

proof fn lemma_expand_head(e: Entries, cts: Seq<Seq<Token>>, ts: Seq<Token>, fuel: nat)
    requires
        ts.len() > 0,
    ensures
        expand_tokens(e, cts, ts, fuel) == expand_tokens(e, cts, seq![ts[0]], fuel)
            + expand_tokens(e, cts, ts.skip(1), fuel),
{
    let one = seq![ts[0]];
    assert(one.skip(1) =~= Seq::<Token>::empty());
    let h = expand_tokens(e, cts, one, fuel);
    assert(expand_tokens(e, cts, one.skip(1), fuel) == Seq::<Token>::empty());
    assert(h + Seq::<Token>::empty() =~= h);
}

proof fn lemma_expand_concat(e: Entries, cts: Seq<Seq<Token>>, a: Seq<Token>, b: Seq<Token>, fuel: nat)
    ensures
        expand_tokens(e, cts, a + b, fuel) == expand_tokens(e, cts, a, fuel) + expand_tokens(
            e,
            cts,
            b,
            fuel,
        ),
    decreases a.len(),
{
    if a.len() == 0 {
        assert(a + b =~= b);
        assert(Seq::<Token>::empty() + expand_tokens(e, cts, b, fuel) =~= expand_tokens(
            e,
            cts,
            b,
            fuel,
        ));
    } else {
        assert((a + b)[0] == a[0]);
        assert((a + b).skip(1) =~= a.skip(1) + b);
        lemma_expand_concat(e, cts, a.skip(1), b, fuel);
        lemma_expand_head(e, cts, a + b, fuel);
        lemma_expand_head(e, cts, a, fuel);
        let h = expand_tokens(e, cts, seq![a[0]], fuel);
        assert(h + (expand_tokens(e, cts, a.skip(1), fuel) + expand_tokens(e, cts, b, fuel)) =~= (h
            + expand_tokens(e, cts, a.skip(1), fuel)) + expand_tokens(e, cts, b, fuel));
    }
}

proof fn lemma_refs_below_rest(e: Entries, rank: Seq<nat>, ts: Seq<Token>, b: nat)
    requires
        ts.len() > 0,
        refs_below(e, rank, ts, e.len() as int, b),
    ensures
        refs_below(e, rank, ts.skip(1), e.len() as int, b),
{
    assert forall|j: int|
        0 <= j < e.len() as int && j < e.len() && #[trigger] ts.skip(1).contains(
            Token::Ref(e[j].0),
        ) implies rank[j] < b by {
        let i = choose|i: int| 0 <= i < ts.skip(1).len() && ts.skip(1)[i] == Token::Ref(e[j].0);
        assert(ts[i + 1] == Token::Ref(e[j].0));
        assert(ts.contains(Token::Ref(e[j].0)));
    }
}

/// The expansion does not depend on the fuel once it exceeds the ranks of
/// the references.
proof fn lemma_expand_fuel(
    e: Entries,
    cts: Seq<Seq<Token>>,
    rank: Seq<nat>,
    ts: Seq<Token>,
    f: nat,
    g: nat,
    b: nat,
)
    requires
        keys_unique(e),
        ranked(e, cts, rank),
        refs_below(e, rank, ts, e.len() as int, b),
        f >= b,
        g >= b,
    ensures
        expand_tokens(e, cts, ts, f) == expand_tokens(e, cts, ts, g),
    decreases b, ts.len(),
{
    if ts.len() > 0 {
        lemma_refs_below_rest(e, rank, ts, b);
        lemma_expand_fuel(e, cts, rank, ts.skip(1), f, g, b);
        match ts[0] {
            Token::Ref(w) => {
                lemma_key_index(e, w);
                let j = key_index(e, w);
                if 0 <= j < cts.len() {
                    assert(ts.contains(Token::Ref(e[j].0)));
                    assert(rank[j] < b);
                    assert(refs_below(e, rank, cts[j], e.len() as int, rank[j])) by {
                        assert forall|i: int|
                            0 <= i < e.len() as int && i < e.len() && #[trigger] cts[j].contains(
                                Token::Ref(e[i].0),
                            ) implies rank[i] < rank[j] by {}
                    }
                    lemma_expand_fuel(
                        e,
                        cts,
                        rank,
                        cts[j],
                        (f - 1) as nat,
                        (g - 1) as nat,
                        rank[j],
                    );
                }
            },
            _ => {},
        }
    }
}

/// Tokens without references to aliases are their own expansion.
proof fn lemma_expand_id(e: Entries, cts: Seq<Seq<Token>>, rank: Seq<nat>, ts: Seq<Token>, f: nat)
    requires
        cts.len() == e.len(),
        refs_below(e, rank, ts, e.len() as int, 0),
    ensures
        expand_tokens(e, cts, ts, f) == ts,
    decreases ts.len(),
{
    if ts.len() > 0 {
        lemma_refs_below_rest(e, rank, ts, 0);
        lemma_expand_id(e, cts, rank, ts.skip(1), f);
        match ts[0] {
            Token::Ref(w) => {
                lemma_key_index(e, w);
                let j = key_index(e, w);
                if 0 <= j < cts.len() {
                    assert(ts.contains(Token::Ref(e[j].0)));
                }
            },
            _ => {},
        }
        assert(seq![ts[0]] + ts.skip(1) =~= ts);
    }
}

/// Substituting an alias's references by its content keeps the expansion.
proof fn lemma_expand_subst(
    e: Entries,
    cts: Seq<Seq<Token>>,
    rank: Seq<nat>,
    ts: Seq<Token>,
    m: int,
    f: nat,
)
    requires
        keys_unique(e),
        ranked(e, cts, rank),
        0 <= m < e.len(),
        f > rank[m],
    ensures
        expand_tokens(e, cts, subst_tokens(ts, e[m].0, cts[m]), f) == expand_tokens(e, cts, ts, f),
    decreases ts.len(),
{
    if ts.len() > 0 {
        let n = e[m].0;
        let head = if ts[0] == Token::Ref(n) {
            cts[m]
        } else {
            seq![ts[0]]
        };
        let rest = subst_tokens(ts.skip(1), n, cts[m]);
        lemma_expand_subst(e, cts, rank, ts.skip(1), m, f);
        lemma_expand_concat(e, cts, head, rest, f);
        lemma_expand_head(e, cts, ts, f);
        if ts[0] == Token::Ref(n) {
            lemma_key_index_unique(e, n, m);
            assert(refs_below(e, rank, cts[m], e.len() as int, rank[m])) by {
                assert forall|i: int|
                    0 <= i < e.len() as int && i < e.len() && #[trigger] cts[m].contains(
                        Token::Ref(e[i].0),
                    ) implies rank[i] < rank[m] by {}
            }
            lemma_expand_fuel(e, cts, rank, cts[m], f, (f - 1) as nat, rank[m]);
            let one = seq![ts[0]];
            assert(one.skip(1) =~= Seq::<Token>::empty());
            let x = expand_tokens(e, cts, cts[m], (f - 1) as nat);
            assert(expand_tokens(e, cts, one, f) == x + expand_tokens(e, cts, one.skip(1), f));
            assert(x + Seq::<Token>::empty() =~= x);
        }
    }
}

/// No reference cycle: the contents read as the tokens `cts`, and each alias
/// has a rank below the number of aliases such that every content refers
/// only to aliases of lower rank (a rank exists exactly when no alias can
/// reach itself through references).
pub open spec fn ranked(e: Entries, cts: Seq<Seq<Token>>, rank: Seq<nat>) -> bool {
    &&& cts.len() == e.len()
    &&& rank.len() == e.len()
    &&& forall|k: int|
        0 <= k < e.len() ==> e[k].1 == flatten(#[trigger] cts[k]) && tokens_ok(cts[k]) && rank[k]
            < e.len()
    &&& forall|k: int, j: int|
        0 <= k < e.len() && 0 <= j < e.len() && #[trigger] cts[k].contains(
            Token::Ref(#[trigger] e[j].0),
        ) ==> rank[j] < rank[k]
}

/// Every reference in `ts` to an alias of index below `m` is to one of rank
/// below `bound`.
pub open spec fn refs_below(e: Entries, rank: Seq<nat>, ts: Seq<Token>, m: int, bound: nat) -> bool {
    forall|j: int|
        0 <= j < m && j < e.len() && #[trigger] ts.contains(Token::Ref(e[j].0)) ==> rank[j] < bound
}

/// A pass over text without references to aliases changes nothing.
proof fn lemma_pass_quiet(e: Entries, rank: Seq<nat>, m: int, ts: Seq<Token>)
    requires
        names_brace_free(e),
        tokens_ok(ts),
        0 <= m <= e.len(),
        refs_below(e, rank, ts, e.len() as int, 0),
    ensures
        subst_pass(e, m, flatten(ts), None) == (flatten(ts), None::<Seq<char>>),
    decreases e.len() - m,
{
    if m < e.len() {
        assert(brace_free(e[m].0));
        lemma_ref_occurs(ts, e[m].0);
        assert(!ts.contains(Token::Ref(e[m].0)));
        lemma_pass_quiet(e, rank, m + 1, ts);
    }
}

/// A pass lowers the rank bound of the references in the text by one: an
/// alias's references are replaced by those of its content, of lower rank,
/// and those to aliases before it in the pass are all of such.
proof fn lemma_pass_lowers(
    e: Entries,
    cts: Seq<Seq<Token>>,
    rank: Seq<nat>,
    m: int,
    ts: Seq<Token>,
    first: Option<Seq<char>>,
    bound: nat,
    f: nat,
) -> (ts2: Seq<Token>)
    requires
        keys_unique(e),
        names_brace_free(e),
        ranked(e, cts, rank),
        0 <= m <= e.len(),
        tokens_ok(ts),
        bound >= 1,
        f >= bound,
        refs_below(e, rank, ts, e.len() as int, bound),
        refs_below(e, rank, ts, m, (bound - 1) as nat),
    ensures
        flatten(ts2) == subst_pass(e, m, flatten(ts), first).0,
        tokens_ok(ts2),
        refs_below(e, rank, ts2, e.len() as int, (bound - 1) as nat),
        expand_tokens(e, cts, ts2, f) == expand_tokens(e, cts, ts, f),
    decreases e.len() - m,
{
    if m == e.len() {
        ts
    } else {
        let n = e[m].0;
        assert(brace_free(n));
        lemma_ref_occurs(ts, n);
        if !ts.contains(Token::Ref(n)) {
            lemma_pass_lowers(e, cts, rank, m + 1, ts, first, bound, f)
        } else {
            let c = cts[m];
            assert(e[m].1 == flatten(c) && tokens_ok(c));
            let t2 = subst_tokens(ts, n, c);
            lemma_replace_tokens(ts, n, c);
            lemma_subst_ok(ts, n, c);
            lemma_subst_members(ts, n, c);
            assert(rank[m] < bound);
            assert forall|j: int|
                0 <= j < e.len() && #[trigger] t2.contains(Token::Ref(e[j].0)) implies rank[j] < bound
                && (j < m + 1 ==> rank[j] < bound - 1) by {
                if c.contains(Token::Ref(e[j].0)) {
                    assert(rank[j] < rank[m]);
                } else {
                    assert(ts.contains(Token::Ref(e[j].0)) && Token::Ref(e[j].0) != Token::Ref(n));
                    if j == m {
                        assert(false);
                    }
                    if j < m {
                        assert(rank[j] < bound - 1);
                    }
                }
            }
            let first2 = if first is None {
                Some(n)
            } else {
                first
            };
            lemma_expand_subst(e, cts, rank, ts, m, f);
            lemma_pass_lowers(e, cts, rank, m + 1, t2, first2, bound, f)
        }
    }
}

/// Once an alias is substituted in a pass, the pass reports one.
proof fn lemma_first_kept(e: Entries, m: int, text: Seq<char>, first: Option<Seq<char>>)
    requires
        first is Some,
    ensures
        subst_pass(e, m, text, first).1 is Some,
    decreases e.len() - m,
{
    if 0 <= m < e.len() {
        let p = alias_pattern(e[m].0);
        if !contains_pat(text, p) {
            lemma_first_kept(e, m + 1, text, first);
        } else {
            lemma_first_kept(e, m + 1, replace_all(text, p, e[m].1), first);
        }
    }
}

/// A pass that substitutes nothing met no reference to the aliases it
/// visited.
proof fn lemma_pass_none(e: Entries, m: int, ts: Seq<Token>)
    requires
        names_brace_free(e),
        tokens_ok(ts),
        0 <= m <= e.len(),
        subst_pass(e, m, flatten(ts), None).1 is None,
    ensures
        forall|j: int| m <= j < e.len() ==> !ts.contains(Token::Ref(#[trigger] e[j].0)),
    decreases e.len() - m,
{
    if m < e.len() {
        let p = alias_pattern(e[m].0);
        assert(brace_free(e[m].0));
        lemma_ref_occurs(ts, e[m].0);
        if contains_pat(flatten(ts), p) {
            lemma_first_kept(e, m + 1, replace_all(flatten(ts), p, e[m].1), Some(e[m].0));
        } else {
            lemma_pass_none(e, m + 1, ts);
        }
    }
}

/// With the references of rank below `fuel`, the passes end before the
/// fuel does, with the full expansion of the tokens.
proof fn lemma_rounds_expand(
    e: Entries,
    cts: Seq<Seq<Token>>,
    rank: Seq<nat>,
    ts: Seq<Token>,
    fuel: nat,
    f: nat,
)
    requires
        keys_unique(e),
        names_brace_free(e),
        ranked(e, cts, rank),
        tokens_ok(ts),
        refs_below(e, rank, ts, e.len() as int, fuel),
        f >= fuel,
    ensures
        subst_rounds(e, flatten(ts), fuel) == Ok::<Seq<char>, Seq<char>>(
            flatten(expand_tokens(e, cts, ts, f)),
        ),
    decreases fuel,
{
    if fuel == 0 {
        lemma_pass_quiet(e, rank, 0, ts);
        lemma_expand_id(e, cts, rank, ts, f);
    } else {
        let ts2 = lemma_pass_lowers(e, cts, rank, 0, ts, None, fuel, f);
        if subst_pass(e, 0, flatten(ts), None).1 is None {
            lemma_pass_none(e, 0, ts);
            assert(refs_below(e, rank, ts, e.len() as int, 0));
            lemma_pass_quiet(e, rank, 0, ts);
            lemma_expand_id(e, cts, rank, ts, f);
        } else {
            lemma_rounds_expand(e, cts, rank, ts2, (fuel - 1) as nat, f);
        }
    }
}

/// Law: when no alias can reach itself through references (`ranked`), alias
/// substitution expands every reference completely: its result is the full
/// expansion of the SQL (`expand_tokens`, which reaches each alias through
/// its name), for SQL and
/// contents in which braces occur only in references `{{name}}` to
/// brace-free names, and brace-free alias names.
pub proof fn lemma_acyclic_full_expansion(
    e: Entries,
    cts: Seq<Seq<Token>>,
    rank: Seq<nat>,
    ts: Seq<Token>,
    sql: Seq<char>,
)
    requires
        keys_unique(e),
        names_brace_free(e),
        ranked(e, cts, rank),
        tokens_ok(ts),
        sql == flatten(ts),
    ensures
        substitution_result(e, sql) == Ok::<Seq<char>, Seq<char>>(
            flatten(expand_tokens(e, cts, ts, e.len())),
        ),
{
    assert forall|j: int|
        0 <= j < e.len() as int && j < e.len() && #[trigger] ts.contains(
            Token::Ref(e[j].0),
        ) implies rank[j] < e.len() by {
        assert(e[j].1 == flatten(cts[j]));
    }
    lemma_rounds_expand(e, cts, rank, ts, e.len(), e.len());
}

/// Law: when no alias can reach itself through references (`ranked`), alias
/// substitution reports no circular reference, in whatever order the
/// aliases were added (same conditions as `lemma_acyclic_full_expansion`).
pub proof fn lemma_acyclic_never_circular(
    e: Entries,
    cts: Seq<Seq<Token>>,
    rank: Seq<nat>,
    ts: Seq<Token>,
    sql: Seq<char>,
)
    requires
        keys_unique(e),
        names_brace_free(e),
        ranked(e, cts, rank),
        tokens_ok(ts),
        sql == flatten(ts),
    ensures
        !(substitution_outcome(e, sql) is Circular),
{
    lemma_acyclic_full_expansion(e, cts, rank, ts, sql);
}

} // verus!
