//! Laws of the alias system: an alias on a cycle of references (one whose
//! content refers to itself among them) is reported as a circular reference
//! as soon as the SQL refers to it.
use vstd::prelude::*;

use crate::alias::{
    alias_pattern, keys_unique, subst_pass, subst_rounds, substitution_outcome, Entries,
};
use crate::text::{contains_pat, occurs_at, replace_all};

verus! {

/// A name holding neither `{` nor `}`.
pub open spec fn brace_free(name: Seq<char>) -> bool {
    forall|k: int| 0 <= k < name.len() ==> name[k] != '{' && name[k] != '}'
}

/// An occurrence of `pat` in `c` is one in `x + c + y` too.
pub(crate) proof fn lemma_occurs_in_middle(x: Seq<char>, c: Seq<char>, y: Seq<char>, pat: Seq<char>, j: int)
    requires
        occurs_at(c, pat, j),
    ensures
        occurs_at(x + c + y, pat, x.len() + j),
{
    let s = x + c + y;
    assert(s.subrange(x.len() + j, x.len() + j + pat.len()) =~= c.subrange(j, j + pat.len()));
}

/// `replace_all` copies a prefix in which no occurrence of the pattern starts.
pub(crate) proof fn lemma_replace_prefix(s: Seq<char>, pat: Seq<char>, rep: Seq<char>, k: int)
    requires
        pat.len() > 0,
        0 <= k <= s.len(),
        forall|j: int| 0 <= j < k ==> !occurs_at(s, pat, j),
    ensures
        replace_all(s, pat, rep) == s.take(k) + replace_all(s.skip(k), pat, rep),
    decreases k,
{
    if k == 0 {
        assert(s.take(0) =~= Seq::<char>::empty());
        assert(s.skip(0) =~= s);
    } else {
        assert(!occurs_at(s, pat, 0));
        if pat.len() <= s.len() && s.take(pat.len() as int) == pat {
            assert(s.subrange(0, pat.len() as int) =~= s.take(pat.len() as int));
        }
        let t = s.skip(1);
        assert forall|j: int| 0 <= j < k - 1 implies !occurs_at(t, pat, j) by {
            if occurs_at(t, pat, j) {
                assert(s.subrange(j + 1, j + 1 + pat.len()) =~= t.subrange(j, j + pat.len()));
                assert(occurs_at(s, pat, j + 1));
            }
        }
        lemma_replace_prefix(t, pat, rep, k - 1);
        assert(t.skip(k - 1) =~= s.skip(k));
        assert(seq![s[0]] + t.take(k - 1) =~= s.take(k));
    }
}

/// Replacing a pattern that occurs puts the replacement into the result.
proof fn lemma_replace_inserts(s: Seq<char>, pat: Seq<char>, rep: Seq<char>) -> (r: (Seq<char>, Seq<char>))
    requires
        pat.len() > 0,
        contains_pat(s, pat),
    ensures
        replace_all(s, pat, rep) == r.0 + rep + r.1,
    decreases s.len(),
{
    let i = choose|i: int| occurs_at(s, pat, i);
    if pat.len() <= s.len() && s.take(pat.len() as int) == pat {
        let rest = replace_all(s.skip(pat.len() as int), pat, rep);
        assert(rep + rest =~= Seq::<char>::empty() + rep + rest);
        (Seq::empty(), rest)
    } else {
        if i == 0 {
            assert(s.subrange(0, pat.len() as int) =~= s.take(pat.len() as int));
        }
        let t = s.skip(1);
        assert(t.subrange(i - 1, i - 1 + pat.len()) =~= s.subrange(i, i + pat.len()));
        assert(occurs_at(t, pat, i - 1));
        let (x, y) = lemma_replace_inserts(t, pat, rep);
        assert(seq![s[0]] + (x + rep + y) =~= (seq![s[0]] + x) + rep + y);
        (seq![s[0]] + x, y)
    }
}

/// The reference patterns of two different brace-free names never overlap:
/// none starts inside an occurrence of the other, nor where the other starts.
pub(crate) proof fn lemma_no_overlap(s: Seq<char>, x: Seq<char>, y: Seq<char>, p: int, q: int)
    requires
        brace_free(x),
        brace_free(y),
        x != y,
        occurs_at(s, alias_pattern(x), p),
        occurs_at(s, alias_pattern(y), q),
    ensures
        !(p <= q < p + alias_pattern(x).len()),
{
    if p <= q < p + alias_pattern(x).len() {
        lemma_overlap_contradiction(s, x, y, p, q);
    }
}

proof fn lemma_overlap_contradiction(s: Seq<char>, x: Seq<char>, y: Seq<char>, p: int, q: int)
    requires
        brace_free(x),
        brace_free(y),
        x != y,
        occurs_at(s, alias_pattern(x), p),
        occurs_at(s, alias_pattern(y), q),
        p <= q < p + alias_pattern(x).len(),
    ensures
        p > q,
{
    let px = alias_pattern(x);
    let py = alias_pattern(y);
    assert(forall|k: int| 0 <= k < px.len() ==> s[p + k] == #[trigger] px[k]) by {
        assert forall|k: int| 0 <= k < px.len() implies s[p + k] == #[trigger] px[k] by {
            assert(s.subrange(p, p + px.len())[k] == s[p + k]);
        }
    }
    assert(forall|k: int| 0 <= k < py.len() ==> s[q + k] == #[trigger] py[k]) by {
        assert forall|k: int| 0 <= k < py.len() implies s[q + k] == #[trigger] py[k] by {
            assert(s.subrange(q, q + py.len())[k] == s[q + k]);
        }
    }
    let d = q - p;
    if d == 0 {
        if x.len() < y.len() {
            assert(px[2 + x.len() as int] == '}');
            assert(py[2 + x.len() as int] == y[x.len() as int]);
        } else if y.len() < x.len() {
            assert(py[2 + y.len() as int] == '}');
            assert(px[2 + y.len() as int] == x[y.len() as int]);
        } else {
            assert forall|k: int| 0 <= k < x.len() implies x[k] == y[k] by {
                assert(px[2 + k] == x[k]);
                assert(py[2 + k] == y[k]);
            }
            assert(x =~= y);
        }
    } else if d == 1 {
        assert(py[1] == '{');
        if x.len() > 0 {
            assert(px[2] == x[0]);
        } else {
            assert(px[2] == '}');
        }
    } else {
        assert(py[0] == '{');
        if d < 2 + x.len() {
            assert(px[d] == x[d - 2]);
        } else {
            assert(px[d] == '}');
        }
    }
}

/// Replacing the references to one brace-free name keeps a reference to
/// another.
proof fn lemma_replace_keeps_ref(s: Seq<char>, a: Seq<char>, b: Seq<char>, r: Seq<char>, i: int)
    requires
        brace_free(a),
        brace_free(b),
        a != b,
        occurs_at(s, alias_pattern(a), i),
    ensures
        contains_pat(replace_all(s, alias_pattern(b), r), alias_pattern(a)),
    decreases s.len(),
{
    let pa = alias_pattern(a);
    let pb = alias_pattern(b);
    let n = pb.len();
    if n <= s.len() && s.take(n as int) == pb {
        assert(s.subrange(0, n as int) =~= s.take(n as int));
        if i < n {
            lemma_no_overlap(s, b, a, 0, i);
        }
        let t = s.skip(n as int);
        assert(t.subrange(i - n, i - n + pa.len()) =~= s.subrange(i, i + pa.len()));
        lemma_replace_keeps_ref(t, a, b, r, i - n);
        let rest = replace_all(t, pb, r);
        let j = choose|j: int| occurs_at(rest, pa, j);
        lemma_occurs_in_middle(r, rest, Seq::empty(), pa, j);
        assert(r + rest + Seq::<char>::empty() =~= r + rest);
    } else if i == 0 {
        assert forall|j: int| 0 <= j < pa.len() implies !occurs_at(s, pb, j) by {
            if occurs_at(s, pb, j) {
                if j == 0 {
                    assert(s.subrange(0, n as int) =~= s.take(n as int));
                } else {
                    lemma_no_overlap(s, a, b, 0, j);
                }
            }
        }
        lemma_replace_prefix(s, pb, r, pa.len() as int);
        assert(s.take(pa.len() as int) =~= pa);
        let rest = replace_all(s.skip(pa.len() as int), pb, r);
        assert(occurs_at(pa, pa, 0)) by {
            assert(pa.subrange(0, pa.len() as int) =~= pa);
        }
        lemma_occurs_in_middle(Seq::empty(), pa, rest, pa, 0);
        assert(Seq::<char>::empty() + pa + rest =~= pa + rest);
    } else {
        let t = s.skip(1);
        assert(t.subrange(i - 1, i - 1 + pa.len()) =~= s.subrange(i, i + pa.len()));
        lemma_replace_keeps_ref(t, a, b, r, i - 1);
        let rest = replace_all(t, pb, r);
        let j = choose|j: int| occurs_at(rest, pa, j);
        lemma_occurs_in_middle(seq![s[0]], rest, Seq::empty(), pa, j);
        assert(seq![s[0]] + rest + Seq::<char>::empty() =~= seq![s[0]] + rest);
    }
}

/// Every name of the list is brace-free.
pub open spec fn names_brace_free(e: Entries) -> bool {
    forall|k: int| 0 <= k < e.len() ==> brace_free(#[trigger] e[k].0)
}

/// Replacing a pattern that occurs by a text that holds `pat2` leaves `pat2`
/// in the result.
proof fn lemma_replace_by_holder(s: Seq<char>, pat: Seq<char>, rep: Seq<char>, pat2: Seq<char>)
    requires
        pat.len() > 0,
        contains_pat(s, pat),
        contains_pat(rep, pat2),
    ensures
        contains_pat(replace_all(s, pat, rep), pat2),
{
    let (x, y) = lemma_replace_inserts(s, pat, rep);
    let j = choose|j: int| occurs_at(rep, pat2, j);
    lemma_occurs_in_middle(x, rep, y, pat2, j);
}

/// A substitution step by an alias other than `a` keeps a reference to `a`.
proof fn lemma_step_keeps_ref(e: Entries, m: int, ia: int, text: Seq<char>)
    requires
        keys_unique(e),
        names_brace_free(e),
        0 <= m < e.len(),
        0 <= ia < e.len(),
        m != ia,
        contains_pat(text, alias_pattern(e[ia].0)),
    ensures
        contains_pat(replace_all(text, alias_pattern(e[m].0), e[m].1), alias_pattern(e[ia].0)),
{
    assert(brace_free(e[m].0));
    assert(brace_free(e[ia].0));
    if m < ia {
        assert(e[m].0 != e[ia].0);
    } else {
        assert(e[ia].0 != e[m].0);
    }
    let i = choose|i: int| occurs_at(text, alias_pattern(e[ia].0), i);
    lemma_replace_keeps_ref(text, e[ia].0, e[m].0, e[m].1, i);
}

/// The aliases at the indices `c` reach a cycle: the content of each refers
/// to another of them, the one at position `next[k]` of `c` (so that, from
/// any of them, references lead on for ever; a cycle, and every alias from
/// which a cycle is reached, form such a set).
pub open spec fn reaches_cycle(e: Entries, c: Seq<int>, next: Seq<int>) -> bool {
    &&& c.len() > 0
    &&& next.len() == c.len()
    &&& forall|k: int| 0 <= k < c.len() ==> 0 <= #[trigger] c[k] < e.len()
    &&& forall|k: int| 0 <= k < c.len() ==> 0 <= #[trigger] next[k] < c.len()
    &&& forall|k: int|
        0 <= k < c.len() ==> contains_pat(
            e[#[trigger] c[k]].1,
            alias_pattern(e[c[next[k]]].0),
        )
}

/// The text refers to some alias of the cycle `c`.
pub open spec fn refers_to_cycle(e: Entries, c: Seq<int>, text: Seq<char>) -> bool {
    exists|k: int| 0 <= k < c.len() && contains_pat(text, alias_pattern(e[#[trigger] c[k]].0))
}

/// Substituting any alias keeps a reference to the cycle in the text: a
/// cycle alias substituted leaves the reference to the next one.
#[verifier::spinoff_prover]
proof fn lemma_cycle_step(e: Entries, c: Seq<int>, next: Seq<int>, m: int, text: Seq<char>)
    requires
        keys_unique(e),
        names_brace_free(e),
        reaches_cycle(e, c, next),
        0 <= m < e.len(),
        contains_pat(text, alias_pattern(e[m].0)),
        refers_to_cycle(e, c, text),
    ensures
        refers_to_cycle(e, c, replace_all(text, alias_pattern(e[m].0), e[m].1)),
{
    let p = alias_pattern(e[m].0);
    let t2 = replace_all(text, p, e[m].1);
    let k = choose|k: int| 0 <= k < c.len() && contains_pat(text, alias_pattern(e[#[trigger] c[k]].0));
    if c[k] == m {
        let k2 = next[k];
        assert(0 <= k2 < c.len());
        assert(contains_pat(e[c[k]].1, alias_pattern(e[c[k2]].0)));
        lemma_replace_by_holder(text, p, e[m].1, alias_pattern(e[c[k2]].0));
        assert(contains_pat(t2, alias_pattern(e[c[k2]].0)));
    } else {
        assert(0 <= c[k] < e.len());
        lemma_step_keeps_ref(e, m, c[k], text);
        assert(contains_pat(t2, alias_pattern(e[c[k]].0)));
    }
}

/// A cycle alias referred to at or after index `m`.
pub open spec fn cycle_ref_from(e: Entries, c: Seq<int>, m: int, text: Seq<char>) -> bool {
    exists|k: int|
        0 <= k < c.len() && m <= c[k] && contains_pat(text, alias_pattern(e[#[trigger] c[k]].0))
}

/// A pass over a text that refers to the cycle `c` (through an alias at or
/// after index `m`, or with a substitution already made) substitutes
/// something and leaves a reference to the cycle in the text.
#[verifier::spinoff_prover]
proof fn lemma_pass_keeps_cycle(
    e: Entries,
    c: Seq<int>,
    next: Seq<int>,
    m: int,
    text: Seq<char>,
    first: Option<Seq<char>>,
)
    requires
        keys_unique(e),
        names_brace_free(e),
        reaches_cycle(e, c, next),
        0 <= m <= e.len(),
        refers_to_cycle(e, c, text),
        first is Some || cycle_ref_from(e, c, m, text),
    ensures
        subst_pass(e, m, text, first).1 is Some,
        refers_to_cycle(e, c, subst_pass(e, m, text, first).0),
    decreases e.len() - m,
{
    if m < e.len() {
        let p = alias_pattern(e[m].0);
        if !contains_pat(text, p) {
            if first is None {
                let kx = choose|k: int|
                    0 <= k < c.len() && m <= c[k] && contains_pat(
                        text,
                        alias_pattern(e[#[trigger] c[k]].0),
                    );
                assert(c[kx] != m);
                assert(cycle_ref_from(e, c, m + 1, text));
            }
            lemma_pass_keeps_cycle(e, c, next, m + 1, text, first);
        } else {
            lemma_cycle_step(e, c, next, m, text);
            let first2 = if first is None {
                Some(e[m].0)
            } else {
                first
            };
            lemma_pass_keeps_cycle(e, c, next, m + 1, replace_all(text, p, e[m].1), first2);
        }
    } else if first is None {
        let kx = choose|k: int|
            0 <= k < c.len() && m <= c[k] && contains_pat(text, alias_pattern(e[#[trigger] c[k]].0));
        assert(c[kx] < e.len());
    }
}

/// While the text refers to a cycle, every pass substitutes something, so the
/// passes end in a circular reference.
proof fn lemma_rounds_circular(e: Entries, c: Seq<int>, next: Seq<int>, text: Seq<char>, fuel: nat)
    requires
        keys_unique(e),
        names_brace_free(e),
        reaches_cycle(e, c, next),
        refers_to_cycle(e, c, text),
    ensures
        subst_rounds(e, text, fuel) is Err,
    decreases fuel,
{
    let k = choose|k: int| 0 <= k < c.len() && contains_pat(text, alias_pattern(e[#[trigger] c[k]].0));
    assert(0 <= c[k]);
    lemma_pass_keeps_cycle(e, c, next, 0, text, None);
    let (t, first) = subst_pass(e, 0, text, None);
    if fuel > 0 {
        lemma_rounds_circular(e, c, next, t, (fuel - 1) as nat);
    }
}

/// Law: when the SQL refers, directly or through other aliases, to a cycle
/// of references (`reaches_cycle`: a set of aliases whose contents each refer to
/// one of the set), alias substitution reports a circular reference, for
/// every list whose names hold no brace.
pub proof fn lemma_cycle_is_circular(e: Entries, c: Seq<int>, next: Seq<int>, sql: Seq<char>)
    requires
        keys_unique(e),
        names_brace_free(e),
        reaches_cycle(e, c, next),
        refers_to_cycle(e, c, sql),
    ensures
        substitution_outcome(e, sql) is Circular,
{
    lemma_rounds_circular(e, c, next, sql, e.len());
}

/// Law: when the content of an alias refers to the alias itself and the SQL
/// refers to it, substitution reports a circular reference, for every list
/// whose names hold no brace.
pub proof fn lemma_self_reference_is_circular(e: Entries, sql: Seq<char>, ia: int)
    requires
        keys_unique(e),
        names_brace_free(e),
        0 <= ia < e.len(),
        contains_pat(e[ia].1, alias_pattern(e[ia].0)),
        contains_pat(sql, alias_pattern(e[ia].0)),
    ensures
        substitution_outcome(e, sql) is Circular,
{
    let c = seq![ia];
    let next = seq![0int];
    assert(reaches_cycle(e, c, next));
    assert(c[0] == ia);
    lemma_cycle_is_circular(e, c, next, sql);
}

} // verus!
