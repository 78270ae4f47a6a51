//! Laws of the alias system: reading back the injected form of an alias
//! list gives the list again, also through a method's attributes, and SQL
//! without references is left unchanged.
use vstd::prelude::*;

use crate::alias::{
    alias_pattern, carries_aliases, deserialized, entry_text, escape, extracted, first_ref,
    injectable, injectable_entry, insert_entry, key_index, lemma_key_index, load_pieces, ref_at,
    serialized, skip_word, skip_ws, subst_pass, substitution_outcome, unescape, AliasOutcome,
    Entries,
    MethodAttribute,
};
use crate::text::{
    contains_pat, find_char, is_ws, join, lemma_find_char_first, lemma_find_char_none, occurs_at,
    replace_all, split_on, trim,
};

verus! {

/// Replacing a pattern that does not occur changes nothing.
pub proof fn lemma_replace_absent(s: Seq<char>, pat: Seq<char>, rep: Seq<char>)
    requires
        pat.len() > 0,
        !contains_pat(s, pat),
    ensures
        replace_all(s, pat, rep) == s,
    decreases s.len(),
{
    if s.len() > 0 {
        if pat.len() <= s.len() && s.take(pat.len() as int) == pat {
            assert(s.subrange(0, pat.len() as int) =~= s.take(pat.len() as int));
            assert(occurs_at(s, pat, 0));
        }
        let t = s.skip(1);
        assert forall|i: int| !occurs_at(t, pat, i) by {
            if occurs_at(t, pat, i) {
                assert(s.subrange(i + 1, i + 1 + pat.len()) =~= t.subrange(i, i + pat.len()));
                assert(occurs_at(s, pat, i + 1));
            }
        }
        lemma_replace_absent(t, pat, rep);
        assert(seq![s[0]] + t =~= s);
    }
}

/// A one-character pattern occurs exactly where the character does.
proof fn lemma_contains_single(s: Seq<char>, c: char)
    ensures
        contains_pat(s, seq![c]) <==> s.contains(c),
{
    if s.contains(c) {
        let i = choose|i: int| 0 <= i < s.len() && s[i] == c;
        assert(s.subrange(i, i + 1) =~= seq![c]);
        assert(occurs_at(s, seq![c], i));
    }
    if contains_pat(s, seq![c]) {
        let i = choose|i: int| occurs_at(s, seq![c], i);
        assert(s.subrange(i, i + 1)[0] == s[i]);
    }
}

/// Quoting `"` with a backslash.
pub open spec fn esc_q(c: Seq<char>) -> Seq<char> {
    replace_all(c, seq!['"'], seq!['\\', '"'])
}

proof fn lemma_esc_q_unfold(c: Seq<char>)
    requires
        c.len() > 0,
    ensures
        esc_q(c) == (if c[0] == '"' {
            seq!['\\', '"']
        } else {
            seq![c[0]]
        }) + esc_q(c.skip(1)),
{
    if c[0] == '"' {
        assert(c.take(1) =~= seq!['"']);
    } else {
        assert(c.take(1)[0] != seq!['"'][0]);
    }
}

proof fn lemma_esc_q(c: Seq<char>)
    ensures
        c.len() == 0 ==> esc_q(c) == c,
        c.len() > 0 ==> esc_q(c).len() > 0 && esc_q(c).last() == c.last(),
        esc_q(c).len() > 0 ==> esc_q(c)[0] != '"',
        !c.contains(';') ==> !esc_q(c).contains(';'),
        replace_all(esc_q(c), seq!['\\', '"'], seq!['"']) == c,
    decreases c.len(),
{
    let bq = seq!['\\', '"'];
    if c.len() > 0 {
        let r = c.skip(1);
        lemma_esc_q(r);
        lemma_esc_q_unfold(c);
        let head = if c[0] == '"' {
            seq!['\\', '"']
        } else {
            seq![c[0]]
        };
        let e = esc_q(c);
        let er = esc_q(r);
        assert(e == head + er);
        if r.len() > 0 {
            assert(r.last() == c.last());
            assert(e.last() == er.last());
        } else {
            assert(er.len() == 0);
            assert(e =~= head);
        }
        if !c.contains(';') {
            assert(!r.contains(';')) by {
                if r.contains(';') {
                    let k = choose|k: int| 0 <= k < r.len() && r[k] == ';';
                    assert(c[k + 1] == ';');
                }
            }
            assert forall|k: int| 0 <= k < e.len() implies e[k] != ';' by {
                if k < head.len() {
                    assert(e[k] == head[k]);
                } else {
                    assert(e[k] == er[k - head.len()]);
                    assert(!er.contains(';'));
                }
            }
        }
        // replacing `\"` back
        if c[0] == '"' {
            assert(e.take(2) =~= bq);
            assert(e.skip(2) =~= er);
            assert(replace_all(e, bq, seq!['"']) == seq!['"'] + replace_all(
                e.skip(2),
                bq,
                seq!['"'],
            ));
            assert(seq!['"'] + r =~= c);
        } else {
            if e.len() >= 2 {
                if c[0] == '\\' {
                    assert(e[1] == er[0]);
                    assert(e.take(2)[1] != bq[1]);
                } else {
                    assert(e.take(2)[0] != bq[0]);
                }
            }
            assert(e.skip(1) =~= er);
            assert(replace_all(e, bq, seq!['"']) == seq![e[0]] + replace_all(
                e.skip(1),
                bq,
                seq!['"'],
            ));
            assert(seq![c[0]] + r =~= c);
        }
    }
}

/// Escaping then unescaping a content without `;` gives it back; the escaped
/// form keeps the last character and holds no `;`.
pub proof fn lemma_escape_roundtrip(c: Seq<char>)
    requires
        !c.contains(';'),
    ensures
        unescape(escape(c)) == c,
        escape(c) == esc_q(c),
        !escape(c).contains(';'),
        c.len() == 0 ==> escape(c).len() == 0,
        c.len() > 0 ==> escape(c).len() > 0 && escape(c).last() == c.last(),
{
    lemma_esc_q(c);
    let e = esc_q(c);
    lemma_contains_single(e, ';');
    lemma_replace_absent(e, seq![';'], seq!['\\', ';']);
    assert(escape(c) == e);
    let back = replace_all(e, seq!['\\', '"'], seq!['"']);
    assert(back == c);
    assert(!contains_pat(c, seq!['\\', ';'])) by {
        if contains_pat(c, seq!['\\', ';']) {
            let i = choose|i: int| occurs_at(c, seq!['\\', ';'], i);
            assert(c.subrange(i, i + 2)[1] == c[i + 1]);
            assert(c.contains(';'));
        }
    }
    lemma_replace_absent(c, seq!['\\', ';'], seq![';']);
}

/// `trim` leaves a sequence alone whose ends are not whitespace.
pub proof fn lemma_trim_id(s: Seq<char>)
    requires
        s.len() > 0 ==> !is_ws(s[0]) && !is_ws(s.last()),
    ensures
        trim(s) == s,
{
}

/// The front unfolding of `join`.
pub proof fn lemma_join_front(parts: Seq<Seq<char>>, sep: Seq<char>)
    requires
        parts.len() >= 2,
    ensures
        join(parts, sep) == parts[0] + sep + join(parts.skip(1), sep),
    decreases parts.len(),
{
    let dl = parts.drop_last();
    if parts.len() == 2 {
        assert(join(dl, sep) == dl[0]);
        assert(join(parts.skip(1), sep) == parts.skip(1)[0]);
        assert(join(parts, sep) == join(dl, sep) + sep + parts.last());
    } else {
        lemma_join_front(dl, sep);
        assert(parts.skip(1).drop_last() =~= dl.skip(1));
        assert(parts.skip(1).last() == parts.last());
        let a = join(dl.skip(1), sep);
        assert(join(parts.skip(1), sep) == a + sep + parts.last());
        assert(join(parts, sep) == (dl[0] + sep + a) + sep + parts.last());
        assert((dl[0] + sep + a) + sep + parts.last() =~= dl[0] + sep + (a + sep
            + parts.last()));
    }
}

/// Splitting a join on a delimiter that no piece holds gives the pieces back.
pub proof fn lemma_split_join(parts: Seq<Seq<char>>, d: char)
    requires
        parts.len() >= 1,
        forall|k: int| 0 <= k < parts.len() ==> !(#[trigger] parts[k]).contains(d),
    ensures
        split_on(join(parts, seq![d]), d) == parts,
    decreases parts.len(),
{
    if parts.len() == 1 {
        let p = parts[0];
        assert forall|k: int| 0 <= k < p.len() implies p[k] != d by {
            assert(!p.contains(d));
        }
        lemma_find_char_none(p, d);
        assert(seq![p] =~= parts);
    } else {
        lemma_join_front(parts, seq![d]);
        let p0 = parts[0];
        let rest = parts.skip(1);
        let jr = join(rest, seq![d]);
        let j = join(parts, seq![d]);
        assert(j == p0 + seq![d] + jr);
        assert forall|k: int| 0 <= k < p0.len() implies j[k] != d by {
            assert(j[k] == p0[k]);
            assert(!p0.contains(d));
        }
        assert(j[p0.len() as int] == d);
        lemma_find_char_first(j, d, p0.len() as int);
        assert(j.take(p0.len() as int) =~= p0);
        assert(j.skip(p0.len() as int + 1) =~= jr);
        assert forall|k: int| 0 <= k < rest.len() implies !(#[trigger] rest[k]).contains(d) by {
            assert(rest[k] == parts[k + 1]);
        }
        lemma_split_join(rest, d);
        assert(seq![p0] + rest =~= parts);
    }
}

/// What the injected text of one entry looks like when read back.
proof fn lemma_entry_text(p: (Seq<char>, Seq<char>))
    requires
        injectable_entry(p),
    ensures
        entry_text(p).len() > 0,
        !is_ws(entry_text(p)[0]),
        !is_ws(entry_text(p).last()),
        !entry_text(p).contains(';'),
        trim(entry_text(p)) == entry_text(p),
        find_char(entry_text(p), '=') == p.0.len(),
        trim(entry_text(p).take(p.0.len() as int)) == p.0,
        unescape(entry_text(p).skip(p.0.len() as int + 1)) == p.1,
{
    let (name, content) = p;
    lemma_escape_roundtrip(content);
    let esc = escape(content);
    let t = entry_text(p);
    assert(t == name + seq!['='] + esc);
    if name.len() > 0 {
        assert(t[0] == name[0]);
    } else {
        assert(t[0] == '=');
    }
    if esc.len() > 0 {
        assert(t.last() == esc.last());
    } else {
        assert(t.last() == '=');
    }
    assert forall|k: int| 0 <= k < t.len() implies t[k] != ';' by {
        if k < name.len() {
            assert(t[k] == name[k]);
            assert(!name.contains(';'));
        } else if k == name.len() {
        } else {
            assert(t[k] == esc[k - name.len() - 1]);
            assert(!esc.contains(';'));
        }
    }
    lemma_trim_id(t);
    assert forall|k: int| 0 <= k < name.len() implies t[k] != '=' by {
        assert(t[k] == name[k]);
        assert(!name.contains('='));
    }
    lemma_find_char_first(t, '=', name.len() as int);
    assert(t.take(name.len() as int) =~= name);
    lemma_trim_id(name);
    assert(t.skip(name.len() as int + 1) =~= esc);
}

/// Reading the pieces of an injectable list rebuilds it entry by entry.
proof fn lemma_load(e: Entries, j: int)
    requires
        injectable(e),
        0 <= j <= e.len(),
    ensures
        load_pieces(
            e.map_values(|p: (Seq<char>, Seq<char>)| entry_text(p)).skip(j),
            e.take(j),
        ) == Ok::<Entries, Seq<char>>(e),
    decreases e.len() - j,
{
    let texts = e.map_values(|p: (Seq<char>, Seq<char>)| entry_text(p));
    if j == e.len() {
        assert(texts.skip(j).len() == 0);
        assert(e.take(j) =~= e);
    } else {
        let pieces = texts.skip(j);
        assert(pieces[0] == entry_text(e[j]));
        lemma_entry_text(e[j]);
        let t = trim(pieces[0]);
        assert(t == entry_text(e[j]));
        let acc = e.take(j);
        assert forall|k: int| 0 <= k < acc.len() implies acc[k].0 != e[j].0 by {
            assert(acc[k] == e[k]);
        }
        lemma_key_index(acc, e[j].0);
        if key_index(acc, e[j].0) >= 0 {
            assert(acc[key_index(acc, e[j].0)].0 == e[j].0);
        }
        assert(insert_entry(acc, e[j].0, e[j].1) =~= e.take(j + 1));
        assert(pieces.skip(1) =~= texts.skip(j + 1));
        lemma_load(e, j + 1);
    }
}

/// Law: reading back the injected form of an alias list gives the same list
/// (same names, contents and order), for every list whose names hold no `;`
/// or `=` and no surrounding whitespace and whose contents hold no `;` and
/// end in no whitespace.
pub proof fn lemma_injection_roundtrip(e: Entries)
    requires
        injectable(e),
    ensures
        deserialized(serialized(e)) == Ok::<Entries, Seq<char>>(e),
{
    let texts = e.map_values(|p: (Seq<char>, Seq<char>)| entry_text(p));
    let s = serialized(e);
    assert(s == join(texts, seq![';']));
    if e.len() == 0 {
        assert(texts.len() == 0);
        assert(e =~= Seq::<(Seq<char>, Seq<char>)>::empty());
    } else {
        assert forall|k: int| 0 <= k < texts.len() implies !(#[trigger] texts[k]).contains(';') by {
            lemma_entry_text(e[k]);
        }
        lemma_split_join(texts, ';');
        lemma_entry_text(e[0]);
        lemma_entry_text(e[e.len() - 1]);
        if texts.len() >= 2 {
            lemma_join_front(texts, seq![';']);
            assert(s[0] == texts[0][0]);
            assert(s.last() == texts.last().last());
        } else {
            assert(s == texts[0]);
        }
        lemma_trim_id(s);
        assert(e.take(0) =~= Seq::<(Seq<char>, Seq<char>)>::empty());
        assert(texts.skip(0) =~= texts);
        lemma_load(e, 0);
    }
}

proof fn lemma_pattern_has_braces(text: Seq<char>, name: Seq<char>)
    requires
        !contains_pat(text, seq!['{', '{']),
    ensures
        !contains_pat(text, alias_pattern(name)),
{
    let p = alias_pattern(name);
    if contains_pat(text, p) {
        let k = choose|k: int| occurs_at(text, p, k);
        assert(text.subrange(k, k + p.len()) == p);
        assert(text[k] == p[0]);
        assert(text[k + 1] == p[1]);
        assert(text.subrange(k, k + 2) =~= seq!['{', '{']);
        assert(occurs_at(text, seq!['{', '{'], k));
    }
}

proof fn lemma_pass_no_braces(e: Entries, i: int, text: Seq<char>)
    requires
        0 <= i,
        !contains_pat(text, seq!['{', '{']),
    ensures
        subst_pass(e, i, text, None) == (text, None::<Seq<char>>),
    decreases e.len() - i,
{
    if i < e.len() {
        lemma_pattern_has_braces(text, e[i].0);
        lemma_pass_no_braces(e, i + 1, text);
    }
}

proof fn lemma_first_ref_none(s: Seq<char>, i: int)
    requires
        !contains_pat(s, seq!['{', '{']),
    ensures
        first_ref(s, i) == -1,
    decreases s.len() + 1 - i,
{
    if 0 <= i <= s.len() {
        assert(!ref_at(s, i));
        lemma_first_ref_none(s, i + 1);
    }
}

/// Law: SQL in which `{{` never occurs comes back unchanged from alias
/// substitution, whatever the aliases.
pub proof fn lemma_no_reference_unchanged(e: Entries, sql: Seq<char>)
    requires
        !contains_pat(sql, seq!['{', '{']),
    ensures
        substitution_outcome(e, sql) == AliasOutcome::Resolved(sql),
{
    lemma_pass_no_braces(e, 0, sql);
    lemma_first_ref_none(sql, 0);
}

/// Law: a method whose first alias-carrying attribute holds the injected form
/// of a trait's alias list receives that list (same names, contents and
/// order), for every list that `lemma_injection_roundtrip` covers.
pub proof fn lemma_method_receives_trait_aliases(e: Entries, attrs: Seq<MethodAttribute>, k: int)
    requires
        injectable(e),
        0 <= k < attrs.len(),
        forall|j: int| 0 <= j < k ==> !carries_aliases(#[trigger] attrs[j]),
        carries_aliases(attrs[k]),
        attrs[k].string_value.unwrap()@ == serialized(e),
    ensures
        extracted(attrs) == Ok::<Entries, Seq<char>>(e),
    decreases k,
{
    if k == 0 {
        lemma_injection_roundtrip(e);
    } else {
        assert(!carries_aliases(attrs[0]));
        let rest = attrs.skip(1);
        assert forall|j: int| 0 <= j < k - 1 implies !carries_aliases(#[trigger] rest[j]) by {
            assert(rest[j] == attrs[j + 1]);
        }
        assert(rest[k - 1] == attrs[k]);
        lemma_method_receives_trait_aliases(e, rest, k - 1);
    }
}

/// A name made of ASCII letters of either case, digits and `_` (the `\w+`
/// of a reference `{{ name }}`).
pub open spec fn ascii_word(n: Seq<char>) -> bool {
    &&& n.len() > 0
    &&& forall|k: int|
        0 <= k < n.len() ==> ('a' <= #[trigger] n[k] && n[k] <= 'z') || ('A' <= n[k] && n[k]
            <= 'Z') || ('0' <= n[k] && n[k] <= '9') || n[k] == '_'
}

proof fn lemma_skip_word_run(s: Seq<char>, j: int, n: Seq<char>, k: int)
    requires
        ascii_word(n),
        0 <= j,
        j + n.len() < s.len(),
        s.subrange(j, j + n.len()) == n,
        s[j + n.len()] == '}',
        0 <= k <= n.len(),
    ensures
        skip_word(s, j + k) == j + n.len(),
    decreases n.len() - k,
{
    if k < n.len() {
        assert(s[j + k] == s.subrange(j, j + n.len())[k]);
        assert(s[j + k] == n[k]);
        lemma_skip_word_run(s, j, n, k + 1);
    }
}

proof fn lemma_first_ref_some(s: Seq<char>, i: int, j: int)
    requires
        0 <= j <= i <= s.len(),
        ref_at(s, i),
    ensures
        first_ref(s, j) >= 0,
    decreases i - j,
{
    if !ref_at(s, j) {
        lemma_first_ref_some(s, i, j + 1);
    }
}

/// Law: a resolved substitution result holds no reference `{{name}}` to any
/// name of ASCII letters (of either case), digits and `_`: every such
/// reference is either substituted or reported unresolved.
pub proof fn lemma_resolved_has_no_reference(e: Entries, sql: Seq<char>, n: Seq<char>)
    requires
        ascii_word(n),
    ensures
        substitution_outcome(e, sql) matches AliasOutcome::Resolved(t) ==> !contains_pat(
            t,
            alias_pattern(n),
        ),
{
    if let AliasOutcome::Resolved(t) = substitution_outcome(e, sql) {
        if contains_pat(t, alias_pattern(n)) {
            let p = alias_pattern(n);
            let i = choose|i: int| occurs_at(t, p, i);
            let len = n.len() as int;
            assert(forall|k: int| 0 <= k < p.len() ==> t[i + k] == #[trigger] p[k]) by {
                assert forall|k: int| 0 <= k < p.len() implies t[i + k] == #[trigger] p[k] by {
                    assert(t.subrange(i, i + p.len())[k] == t[i + k]);
                }
            }
            assert(p[0] == '{' && p[1] == '{');
            assert(p[2 + len] == '}' && p[3 + len] == '}');
            assert(t.subrange(i + 2, i + 2 + len) =~= n) by {
                assert forall|k: int| 0 <= k < len implies t.subrange(i + 2, i + 2 + len)[k]
                    == n[k] by {
                    assert(p[2 + k] == n[k]);
                }
            }
            assert(t[i + 2] == n[0]);
            assert(!is_ws(t[i + 2]));
            assert(skip_ws(t, i + 2) == i + 2);
            lemma_skip_word_run(t, i + 2, n, 0);
            assert(t[i + 2 + len] == '}');
            assert(skip_ws(t, i + 2 + len) == i + 2 + len);
            assert(t.subrange(i + 2 + len, i + 2 + len + 2) =~= seq!['}', '}']);
            assert(occurs_at(t, seq!['{', '{'], i)) by {
                assert(t.subrange(i, i + 2) =~= seq!['{', '{']);
            }
            assert(ref_at(t, i));
            lemma_first_ref_some(t, i, 0);
        }
    }
}

/// A reference `{{ name }}` written with `k1` spaces before the name and
/// `k2` after it.
pub open spec fn spaced_reference(n: Seq<char>, k1: nat, k2: nat) -> Seq<char> {
    seq!['{', '{'] + Seq::new(k1, |i: int| ' ') + n + Seq::new(k2, |i: int| ' ') + seq!['}', '}']
}

proof fn lemma_skip_spaces(s: Seq<char>, j: int, k: nat, d: nat)
    requires
        0 <= j,
        j + k < s.len(),
        forall|x: int| j <= x < j + k ==> s[x] == ' ',
        !is_ws(s[j + k]),
        d <= k,
    ensures
        skip_ws(s, j + d) == j + k,
    decreases k - d,
{
    if d < k {
        assert(s[j + d] == ' ');
        lemma_skip_spaces(s, j, k, d + 1);
    }
}

proof fn lemma_skip_word_until(s: Seq<char>, j: int, n: Seq<char>, k: int)
    requires
        ascii_word(n),
        0 <= j,
        j + n.len() < s.len(),
        forall|x: int| 0 <= x < n.len() ==> s[j + x] == n[x],
        s[j + n.len()] == ' ' || s[j + n.len()] == '}',
        0 <= k <= n.len(),
    ensures
        skip_word(s, j + k) == j + n.len(),
    decreases n.len() - k,
{
    if k < n.len() {
        assert(s[j + k] == n[k]);
        lemma_skip_word_until(s, j, n, k + 1);
    }
}

/// Law: a resolved substitution result holds no reference `{{ name }}`,
/// with any number of spaces around a name of ASCII letters (of either
/// case), digits and `_`: every such reference is either substituted or
/// reported unresolved.
pub proof fn lemma_resolved_has_no_spaced_reference(
    e: Entries,
    sql: Seq<char>,
    n: Seq<char>,
    k1: nat,
    k2: nat,
)
    requires
        ascii_word(n),
    ensures
        substitution_outcome(e, sql) matches AliasOutcome::Resolved(t) ==> !contains_pat(
            t,
            spaced_reference(n, k1, k2),
        ),
{
    if let AliasOutcome::Resolved(t) = substitution_outcome(e, sql) {
        let p = spaced_reference(n, k1, k2);
        if contains_pat(t, p) {
            let i = choose|i: int| occurs_at(t, p, i);
            let len = n.len() as int;
            let a = i + 2 + k1;
            let b = a + len;
            let c = b + k2;
            assert(forall|x: int| 0 <= x < p.len() ==> t[i + x] == #[trigger] p[x]) by {
                assert forall|x: int| 0 <= x < p.len() implies t[i + x] == #[trigger] p[x] by {
                    assert(t.subrange(i, i + p.len())[x] == t[i + x]);
                }
            }
            assert(p.len() == 4 + k1 + len + k2);
            assert(p[0] == '{' && p[1] == '{');
            assert forall|x: int| i + 2 <= x < a implies t[x] == ' ' by {
                assert(p[x - i] == ' ');
            }
            assert forall|x: int| 0 <= x < len implies t[a + x] == n[x] by {
                assert(p[2 + k1 + x] == n[x]);
            }
            assert forall|x: int| b <= x < c implies t[x] == ' ' by {
                assert(p[x - i] == ' ');
            }
            assert(p[2 + k1 + len + k2] == '}' && p[3 + k1 + len + k2] == '}');
            assert(t[c] == '}' && t[c + 1] == '}');
            assert(t[a] == n[0]);
            lemma_skip_spaces(t, i + 2, k1, 0);
            if k2 > 0 {
                assert(t[b] == ' ');
            }
            lemma_skip_word_until(t, a, n, 0);
            lemma_skip_spaces(t, b, k2, 0);
            assert(t.subrange(c, c + 2) =~= seq!['}', '}']);
            assert(t.subrange(i, i + 2) =~= seq!['{', '{']);
            assert(ref_at(t, i));
            lemma_first_ref_some(t, i, 0);
        }
    }
}

} // verus!
