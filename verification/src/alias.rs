//! Named SQL fragments (`{{name}}`) and their substitution into SQL templates,
//! plus the text form in which a set of aliases is handed from a trait to its
//! methods.
use vstd::prelude::*;

use crate::text::{
    char_is_ws, chars_of, contains_chars, contains_pat, find_char, find_char_in, is_ws, join,
    join_chars, matches_at, occurs_at, replace_all, replace_all_chars, slice_chars, split_chars,
    split_on, string_eq, string_of, trim, trim_chars,
};

verus! {

/// Errors of alias handling.
#[derive(Debug, Clone, PartialEq, Eq)]
pub enum AliasError {
    /// An alias was substituted again after its own content reintroduced it.
    CircularReference(String),
    /// A `{{name}}` reference remained that no alias resolves.
    UnresolvedAlias(String),
    /// A piece of an injected alias list has no `=`.
    InvalidInjection(String),
    /// An alias attribute is not of the form `alias(name = "content", ...)`.
    InvalidAttribute(String),
}

impl AliasError {
    /// The human-readable message of this error.
    pub fn to_string(&self) -> (r: String)
        ensures
            r@ == alias_error_message(*self),
    {
        match self {
            AliasError::CircularReference(name) => {
                let mut r = String::from_str("Circular alias reference detected: ");
                r.append(name.as_str());
                r
            },
            AliasError::UnresolvedAlias(name) => {
                let mut r = String::from_str("Unresolved alias: {{ ");
                r.append(name.as_str());
                r.append(" }}");
                r
            },
            AliasError::InvalidInjection(pair) => {
                let mut r = String::from_str("Invalid alias format in injection: '");
                r.append(pair.as_str());
                r.append("'");
                r
            },
            AliasError::InvalidAttribute(m) => m.clone(),
        }
    }
}

/// The message of an alias error.
pub open spec fn alias_error_message(e: AliasError) -> Seq<char> {
    match e {
        AliasError::CircularReference(name) => "Circular alias reference detected: "@ + name@,
        AliasError::UnresolvedAlias(name) => "Unresolved alias: {{ "@ + name@ + " }}"@,
        AliasError::InvalidInjection(pair) => "Invalid alias format in injection: '"@ + pair@
            + "'"@,
        AliasError::InvalidAttribute(m) => m@,
    }
}

/// An alias list: `(name, content)` pairs in insertion order.
pub type Entries = Seq<(Seq<char>, Seq<char>)>;

/// No name occurs twice.
pub open spec fn keys_unique(e: Entries) -> bool {
    forall|i: int, j: int| 0 <= i < j < e.len() ==> e[i].0 != e[j].0
}

/// Position of `name` in `e`, or -1.
pub open spec fn key_index(e: Entries, name: Seq<char>) -> int
    decreases e.len(),
{
    if e.len() == 0 {
        -1
    } else if e.last().0 == name {
        e.len() - 1
    } else {
        key_index(e.drop_last(), name)
    }
}

/// The content bound to `name`, if any.
pub open spec fn lookup(e: Entries, name: Seq<char>) -> Option<Seq<char>> {
    let i = key_index(e, name);
    if 0 <= i < e.len() {
        Some(e[i].1)
    } else {
        None
    }
}

/// `e` with `name` bound to `content`: replaced in place when the name is
/// present, appended otherwise.
pub open spec fn insert_entry(e: Entries, name: Seq<char>, content: Seq<char>) -> Entries {
    let i = key_index(e, name);
    if 0 <= i < e.len() {
        e.update(i, (name, content))
    } else {
        e.push((name, content))
    }
}

pub proof fn lemma_key_index(e: Entries, name: Seq<char>)
    ensures
        -1 <= key_index(e, name) < e.len(),
        0 <= key_index(e, name) ==> e[key_index(e, name)].0 == name,
        key_index(e, name) == -1 ==> forall|k: int| 0 <= k < e.len() ==> e[k].0 != name,
    decreases e.len(),
{
    if e.len() > 0 {
        lemma_key_index(e.drop_last(), name);
        if e.last().0 != name && key_index(e, name) == -1 {
            assert forall|k: int| 0 <= k < e.len() implies e[k].0 != name by {
                if k < e.len() - 1 {
                    assert(e[k] == e.drop_last()[k]);
                }
            }
        }
    }
}

pub proof fn lemma_insert_entry(e: Entries, name: Seq<char>, content: Seq<char>)
    requires
        keys_unique(e),
    ensures
        keys_unique(insert_entry(e, name, content)),
        lookup(insert_entry(e, name, content), name) == Some(content),
        forall|other: Seq<char>|
            other != name ==> lookup(insert_entry(e, name, content), other) == lookup(
                e,
                other,
            ),
{
    lemma_key_index(e, name);
    let r = insert_entry(e, name, content);
    let i = key_index(e, name);
    if i >= 0 {
        assert(keys_unique(r)) by {
            assert forall|x: int, y: int| 0 <= x < y < r.len() implies r[x].0 != r[y].0 by {
                assert(r[x].0 == e[x].0);
                assert(r[y].0 == e[y].0);
            }
        }
        lemma_key_index_unique(r, name, i);
    } else {
        assert(keys_unique(r)) by {
            assert forall|x: int, y: int| 0 <= x < y < r.len() implies r[x].0 != r[y].0 by {
                if y == e.len() {
                    assert(e[x].0 != name);
                } else {
                    assert(r[x] == e[x]);
                    assert(r[y] == e[y]);
                }
            }
        }
        lemma_key_index_unique(r, name, e.len() as int);
    }
    assert forall|other: Seq<char>| other != name implies lookup(r, other) == lookup(e, other) by {
        lemma_key_index(e, other);
        lemma_key_index(r, other);
        let ie = key_index(e, other);
        let ir = key_index(r, other);
        if ie >= 0 {
            assert(r[ie].0 == other);
            if ir != ie {
                if ir == -1 {
                } else {
                    assert(r[ir].0 == other);
                }
            }
        } else if ir >= 0 {
            if ir < e.len() {
                assert(e[ir].0 == other);
            }
        }
    }
}

/// The text `{{name}}` that a reference to an alias takes.
pub open spec fn alias_pattern(name: Seq<char>) -> Seq<char> {
    seq!['{', '{'] + name + seq!['}', '}']
}

/// One pass over the aliases in order from index `i`: each alias whose
/// pattern occurs in the text is substituted (all occurrences). The result is
/// the text after the pass and the name of the first alias substituted in it,
/// if any (`first` carries that name from the aliases before `i`).
pub open spec fn subst_pass(e: Entries, i: int, text: Seq<char>, first: Option<Seq<char>>) -> (
    Seq<char>,
    Option<Seq<char>>,
)
    decreases e.len() - i,
{
    if i < 0 || i >= e.len() {
        (text, first)
    } else {
        let p = alias_pattern(e[i].0);
        if !contains_pat(text, p) {
            subst_pass(e, i + 1, text, first)
        } else {
            subst_pass(
                e,
                i + 1,
                replace_all(text, p, e[i].1),
                if first is None {
                    Some(e[i].0)
                } else {
                    first
                },
            )
        }
    }
}

/// Passes repeated until one substitutes nothing; when `fuel` more passes
/// still substitute, the references never run out: a circular reference,
/// named by the first alias substituted in the last pass.
pub open spec fn subst_rounds(e: Entries, text: Seq<char>, fuel: nat) -> Result<
    Seq<char>,
    Seq<char>,
>
    decreases fuel,
{
    let (t, first) = subst_pass(e, 0, text, None);
    match first {
        None => Ok(t),
        Some(name) => if fuel == 0 {
            Err(name)
        } else {
            subst_rounds(e, t, (fuel - 1) as nat)
        },
    }
}

/// `Ok` with the text after all substitutions, or `Err` with the name of an
/// alias still being substituted after one pass more than there are aliases
/// (an alias list without cycles is expanded completely in fewer: each pass
/// expands one more level of nesting).
pub open spec fn substitution_result(e: Entries, sql: Seq<char>) -> Result<Seq<char>, Seq<char>> {
    subst_rounds(e, sql, e.len())
}

/// A character of a reference name.
pub open spec fn is_word(c: char) -> bool {
    ('a' <= c && c <= 'z') || ('A' <= c && c <= 'Z') || ('0' <= c && c <= '9') || c == '_'
}

/// The first index `>= j` whose character is not whitespace.
pub open spec fn skip_ws(s: Seq<char>, j: int) -> int
    decreases s.len() - j,
{
    if 0 <= j < s.len() && is_ws(s[j]) {
        skip_ws(s, j + 1)
    } else {
        j
    }
}

/// The first index `>= j` whose character is not a word character.
pub open spec fn skip_word(s: Seq<char>, j: int) -> int
    decreases s.len() - j,
{
    if 0 <= j < s.len() && is_word(s[j]) {
        skip_word(s, j + 1)
    } else {
        j
    }
}

/// Whether an alias reference `{{ name }}` (optional whitespace around a
/// non-empty word name) starts at index `i`.
pub open spec fn ref_at(s: Seq<char>, i: int) -> bool {
    let a = skip_ws(s, i + 2);
    let b = skip_word(s, a);
    let c = skip_ws(s, b);
    &&& occurs_at(s, seq!['{', '{'], i)
    &&& a < b
    &&& occurs_at(s, seq!['}', '}'], c)
}

/// The name of the reference starting at `i`.
pub open spec fn ref_name(s: Seq<char>, i: int) -> Seq<char> {
    let a = skip_ws(s, i + 2);
    s.subrange(a, skip_word(s, a))
}

/// The first index `>= i` at which a reference starts, or -1.
pub open spec fn first_ref(s: Seq<char>, i: int) -> int
    decreases s.len() + 1 - i,
{
    if i < 0 || i > s.len() {
        -1
    } else if ref_at(s, i) {
        i
    } else {
        first_ref(s, i + 1)
    }
}

/// What substituting the aliases `e` into `sql` gives.
pub enum AliasOutcome {
    Resolved(Seq<char>),
    Circular(Seq<char>),
    Unresolved(Seq<char>),
}

pub open spec fn substitution_outcome(e: Entries, sql: Seq<char>) -> AliasOutcome {
    match substitution_result(e, sql) {
        Err(name) => AliasOutcome::Circular(name),
        Ok(t) => {
            let k = first_ref(t, 0);
            if k >= 0 {
                AliasOutcome::Unresolved(ref_name(t, k))
            } else {
                AliasOutcome::Resolved(t)
            }
        },
    }
}

/// The outcome that an executable result stands for.
pub open spec fn outcome_of(r: Result<String, AliasError>) -> AliasOutcome {
    match r {
        Ok(t) => AliasOutcome::Resolved(t@),
        Err(AliasError::CircularReference(n)) => AliasOutcome::Circular(n@),
        Err(AliasError::UnresolvedAlias(n)) => AliasOutcome::Unresolved(n@),
        Err(AliasError::InvalidInjection(p)) => AliasOutcome::Unresolved(p@),
        Err(AliasError::InvalidAttribute(p)) => AliasOutcome::Unresolved(p@),
    }
}

/// The content as it is written into an injected alias list: `"` and `;`
/// escaped with a backslash.
pub open spec fn escape(c: Seq<char>) -> Seq<char> {
    replace_all(replace_all(c, seq!['"'], seq!['\\', '"']), seq![';'], seq!['\\', ';'])
}

/// The inverse replacements applied when an injected list is read.
pub open spec fn unescape(c: Seq<char>) -> Seq<char> {
    replace_all(replace_all(c, seq!['\\', '"'], seq!['"']), seq!['\\', ';'], seq![';'])
}

/// `name=escaped-content`.
pub open spec fn entry_text(p: (Seq<char>, Seq<char>)) -> Seq<char> {
    p.0 + seq!['='] + escape(p.1)
}

/// The injected form of an alias list: entries joined by `;`.
pub open spec fn serialized(e: Entries) -> Seq<char> {
    join(e.map_values(|p: (Seq<char>, Seq<char>)| entry_text(p)), seq![';'])
}

/// An entry that its injected form can carry unchanged.
pub open spec fn injectable_entry(p: (Seq<char>, Seq<char>)) -> bool {
    &&& !p.0.contains(';')
    &&& !p.0.contains('=')
    &&& !p.1.contains(';')
    &&& p.0.len() > 0 ==> !is_ws(p.0[0]) && !is_ws(p.0.last())
    &&& p.1.len() > 0 ==> !is_ws(p.1.last())
}

/// An alias list that its injected form can carry unchanged.
pub open spec fn injectable(e: Entries) -> bool {
    &&& keys_unique(e)
    &&& forall|k: int| 0 <= k < e.len() ==> injectable_entry(#[trigger] e[k])
}

/// Reading the `;`-separated pieces of an injected list into `acc`.
pub open spec fn load_pieces(pieces: Seq<Seq<char>>, acc: Entries) -> Result<Entries, Seq<char>>
    decreases pieces.len(),
{
    if pieces.len() == 0 {
        Ok(acc)
    } else {
        let t = trim(pieces[0]);
        if t.len() == 0 {
            load_pieces(pieces.skip(1), acc)
        } else {
            let k = find_char(t, '=');
            if k < 0 {
                Err(t)
            } else {
                load_pieces(
                    pieces.skip(1),
                    insert_entry(acc, trim(t.take(k)), unescape(t.skip(k + 1))),
                )
            }
        }
    }
}

/// The alias list that an injected text describes, or the offending piece.
pub open spec fn deserialized(s: Seq<char>) -> Result<Entries, Seq<char>> {
    if trim(s).len() == 0 {
        Ok(Seq::empty())
    } else {
        load_pieces(split_on(s, ';'), Seq::empty())
    }
}

/// What alias extraction reads of one attribute of a method: whether its path
/// is `sqlx_data_aliases`, and the string literal it is set to when it has
/// the form `path = "..."` (`None` for any other form).
#[derive(Debug, Clone)]
pub struct MethodAttribute {
    pub is_alias_list: bool,
    pub string_value: Option<String>,
}

/// Whether an attribute carries an injected alias list.
pub open spec fn carries_aliases(a: MethodAttribute) -> bool {
    a.is_alias_list && a.string_value is Some
}

/// The alias list that a method's attributes carry: that of the first
/// attribute carrying one, read back by `deserialized`; none when no
/// attribute carries one.
pub open spec fn extracted(attrs: Seq<MethodAttribute>) -> Result<Entries, Seq<char>>
    decreases attrs.len(),
{
    if attrs.len() == 0 {
        Ok(Seq::empty())
    } else if carries_aliases(attrs[0]) {
        deserialized(attrs[0].string_value.unwrap()@)
    } else {
        extracted(attrs.skip(1))
    }
}

/// Manages SQL aliases for a repository trait.
#[derive(Debug)]
pub struct AliasManager {
    aliases: Vec<(String, String)>,
}

impl View for AliasManager {
    type V = Entries;

    closed spec fn view(&self) -> Entries {
        self.aliases@.map_values(|p: (String, String)| (p.0@, p.1@))
    }
}

impl AliasManager {
    #[verifier::type_invariant]
    closed spec fn wf(self) -> bool {
        keys_unique(self@)
    }

    /// An empty alias list.
    pub fn new() -> (r: Self)
        ensures
            r@ == Seq::<(Seq<char>, Seq<char>)>::empty(),
    {
        let r = AliasManager { aliases: Vec::new() };
        assert(r@ =~= Seq::<(Seq<char>, Seq<char>)>::empty());
        r
    }

    /// Binds `name` to `content`, replacing an earlier binding of `name`.
    pub fn add_alias(&mut self, name: String, content: String)
        ensures
            final(self)@ == insert_entry(old(self)@, name@, content@),
    {
        proof {
            use_type_invariant(&*self);
            lemma_key_index(self@, name@);
            lemma_insert_entry(self@, name@, content@);
        }
        let ghost old_view = self@;
        let n = self.aliases.len();
        let mut i: usize = 0;
        while i < n
            invariant
                n == self.aliases@.len(),
                old_view == self@,
                old_view == old(self)@,
                keys_unique(old_view),
                keys_unique(insert_entry(old_view, name@, content@)),
                i <= n,
                forall|k: int| 0 <= k < i ==> old_view[k].0 != name@,
            decreases n - i,
        {
            if string_eq(&self.aliases[i].0, &name) {
                proof {
                    assert(old_view[i as int].0 == name@);
                    lemma_key_index_unique(old_view, name@, i as int);
                }
                let mut entries: Vec<(String, String)> = Vec::new();
                std::mem::swap(&mut entries, &mut self.aliases);
                let ghost nv = name@;
                let ghost cv = content@;
                entries.set(i, (name, content));
                assert(entries@.map_values(|p: (String, String)| (p.0@, p.1@)) =~= insert_entry(
                    old_view,
                    nv,
                    cv,
                ));
                self.aliases = entries;
                return;
            }
            i += 1;
        }
        proof {
            lemma_key_index_absent(old_view, name@);
        }
        let mut entries: Vec<(String, String)> = Vec::new();
        std::mem::swap(&mut entries, &mut self.aliases);
        let ghost nv = name@;
        let ghost cv = content@;
        entries.push((name, content));
        assert(entries@.map_values(|p: (String, String)| (p.0@, p.1@)) =~= insert_entry(
            old_view,
            nv,
            cv,
        ));
        self.aliases = entries;
    }

    /// Whether any alias is defined.
    pub fn has_aliases(&self) -> (r: bool)
        ensures
            r == (self@.len() > 0),
    {
        self.aliases.len() > 0
    }

    /// The alias names, in insertion order.
    pub fn get_alias_names(&self) -> (r: Vec<String>)
        ensures
            r@.map_values(|s: String| s@) == self@.map_values(
                |p: (Seq<char>, Seq<char>)| p.0,
            ),
    {
        let mut r: Vec<String> = Vec::new();
        let mut i: usize = 0;
        while i < self.aliases.len()
            invariant
                i <= self.aliases@.len(),
                r@.len() == i,
                forall|k: int| 0 <= k < i ==> #[trigger] r@[k]@ == self.aliases@[k].0@,
            decreases self.aliases.len() - i,
        {
            r.push(self.aliases[i].0.clone());
            i += 1;
        }
        assert(r@.map_values(|s: String| s@) =~= self@.map_values(
            |p: (Seq<char>, Seq<char>)| p.0,
        ));
        r
    }
}

pub(crate) proof fn lemma_key_index_unique(e: Entries, name: Seq<char>, i: int)
    requires
        keys_unique(e),
        0 <= i < e.len(),
        e[i].0 == name,
    ensures
        key_index(e, name) == i,
{
    lemma_key_index(e, name);
    let k = key_index(e, name);
    if k != i {
        if k == -1 {
        } else {
            assert(e[k].0 == name);
        }
    }
}

proof fn lemma_key_index_absent(e: Entries, name: Seq<char>)
    requires
        forall|k: int| 0 <= k < e.len() ==> e[k].0 != name,
    ensures
        key_index(e, name) == -1,
{
    lemma_key_index(e, name);
    let k = key_index(e, name);
    if k >= 0 {
        assert(e[k].0 == name);
    }
}


/// A vector holding the one character `a`.
fn lit1(a: char) -> (r: Vec<char>)
    ensures
        r@ == seq![a],
{
    let mut r: Vec<char> = Vec::new();
    r.push(a);
    assert(r@ =~= seq![a]);
    r
}

/// A vector holding the two characters `a`, `b`.
fn lit2(a: char, b: char) -> (r: Vec<char>)
    ensures
        r@ == seq![a, b],
{
    let mut r: Vec<char> = Vec::new();
    r.push(a);
    r.push(b);
    assert(r@ =~= seq![a, b]);
    r
}

/// The reference text `{{name}}`.
fn pattern_of(name: &[char]) -> (r: Vec<char>)
    ensures
        r@ == alias_pattern(name@),
{
    let mut r = lit2('{', '{');
    crate::text::extend_chars(&mut r, name);
    let close = lit2('}', '}');
    crate::text::extend_chars(&mut r, &close);
    r
}

fn skip_ws_from(s: &[char], j: usize) -> (r: usize)
    requires
        j <= s@.len(),
    ensures
        r == skip_ws(s@, j as int),
        j <= r <= s@.len(),
{
    let mut k = j;
    while k < s.len() && char_is_ws(s[k])
        invariant
            j <= k <= s@.len(),
            skip_ws(s@, j as int) == skip_ws(s@, k as int),
        decreases s.len() - k,
    {
        k += 1;
    }
    k
}

fn skip_word_from(s: &[char], j: usize) -> (r: usize)
    requires
        j <= s@.len(),
    ensures
        r == skip_word(s@, j as int),
        j <= r <= s@.len(),
{
    let mut k = j;
    while k < s.len() && char_is_word(s[k])
        invariant
            j <= k <= s@.len(),
            skip_word(s@, j as int) == skip_word(s@, k as int),
        decreases s.len() - k,
    {
        k += 1;
    }
    k
}

fn char_is_word(c: char) -> (b: bool)
    ensures
        b == is_word(c),
{
    ('a' <= c && c <= 'z') || ('A' <= c && c <= 'Z') || ('0' <= c && c <= '9') || c == '_'
}

/// The name of a reference starting at `i`, if one does.
fn ref_at_exec(s: &[char], i: usize) -> (r: Option<Vec<char>>)
    requires
        i <= s@.len(),
    ensures
        r is Some <==> ref_at(s@, i as int),
        r matches Some(name) ==> name@ == ref_name(s@, i as int),
{
    let open = lit2('{', '{');
    let n = s.len();
    if !matches_at(s, &open, i) {
        return None;
    }
    assert(i + 2 <= n);
    let a = skip_ws_from(s, i + 2);
    let b = skip_word_from(s, a);
    let c = skip_ws_from(s, b);
    let close = lit2('}', '}');
    if a < b && matches_at(s, &close, c) {
        Some(slice_chars(s, a, b))
    } else {
        None
    }
}

/// The name of the first reference in `s`, if any.
fn first_unresolved(s: &[char]) -> (r: Option<Vec<char>>)
    ensures
        r is None ==> first_ref(s@, 0) == -1,
        r matches Some(name) ==> first_ref(s@, 0) >= 0 && name@ == ref_name(
            s@,
            first_ref(s@, 0),
        ),
{
    let mut i: usize = 0;
    while i < s.len()
        invariant
            i <= s@.len(),
            first_ref(s@, 0) == first_ref(s@, i as int),
        decreases s.len() - i,
    {
        match ref_at_exec(s, i) {
            Some(name) => {
                return Some(name);
            },
            None => {},
        }
        i += 1;
    }
    assert(!ref_at(s@, s@.len() as int));
    assert(first_ref(s@, s@.len() as int + 1) == -1);
    None
}

/// The escaped form of an alias content.
fn escape_chars(c: &[char]) -> (r: Vec<char>)
    ensures
        r@ == escape(c@),
{
    let q = lit1('"');
    let bq = lit2('\\', '"');
    let sc = lit1(';');
    let bsc = lit2('\\', ';');
    let t = replace_all_chars(c, &q, &bq);
    replace_all_chars(&t, &sc, &bsc)
}

/// The content that an escaped form stands for.
fn unescape_chars(c: &[char]) -> (r: Vec<char>)
    ensures
        r@ == unescape(c@),
{
    let q = lit1('"');
    let bq = lit2('\\', '"');
    let sc = lit1(';');
    let bsc = lit2('\\', ';');
    let t = replace_all_chars(c, &bq, &q);
    replace_all_chars(&t, &bsc, &sc)
}

impl AliasManager {
    /// Substitutes every alias reference `{{name}}` in `sql`, repeating until
    /// nothing changes; fails on a circular reference and on a reference that
    /// remains unresolved.
    pub fn substitute_aliases(&self, sql: &str) -> (r: Result<String, AliasError>)
        ensures
            outcome_of(r) == substitution_outcome(self@, sql@),
            r matches Err(e) ==> (e is CircularReference || e is UnresolvedAlias),
    {
        let ghost e = self@;
        let n = self.aliases.len();
        let mut text = chars_of(sql);
        let mut rounds_left: usize = n;
        loop
            invariant_except_break
                substitution_result(e, sql@) == subst_rounds(e, text@, rounds_left as nat),
            invariant
                e == self@,
                n == e.len(),
                rounds_left <= n,
            ensures
                substitution_result(e, sql@) == Ok::<Seq<char>, Seq<char>>(text@),
            decreases rounds_left,
        {
            let ghost text0 = text@;
            let mut first: Option<usize> = None;
            let mut i: usize = 0;
            while i < n
                invariant
                    e == self@,
                    n == e.len(),
                    i <= n,
                    first matches Some(k) ==> k < n,
                    subst_pass(e, 0, text0, None) == subst_pass(
                        e,
                        i as int,
                        text@,
                        match first {
                            Some(k) => Some(e[k as int].0),
                            None => None,
                        },
                    ),
                decreases n - i,
            {
                let name = chars_of(self.aliases[i].0.as_str());
                let pat = pattern_of(&name);
                assert(name@ == e[i as int].0);
                if contains_chars(&text, &pat) {
                    let content = chars_of(self.aliases[i].1.as_str());
                    assert(content@ == e[i as int].1);
                    text = replace_all_chars(&text, &pat, &content);
                    if first.is_none() {
                        first = Some(i);
                    }
                }
                i += 1;
            }
            match first {
                None => {
                    assert(substitution_result(e, sql@) == Ok::<Seq<char>, Seq<char>>(text@));
                    break;
                },
                Some(k) => {
                    if rounds_left == 0 {
                        let r = self.aliases[k].0.clone();
                        assert(substitution_result(e, sql@) == Err::<Seq<char>, Seq<char>>(
                            e[k as int].0,
                        ));
                        return Err(AliasError::CircularReference(r));
                    }
                    rounds_left -= 1;
                },
            }
        }
        assert(substitution_result(e, sql@) == Ok::<Seq<char>, Seq<char>>(text@));
        match first_unresolved(&text) {
            Some(name) => Err(AliasError::UnresolvedAlias(string_of(&name))),
            None => Ok(string_of(&text)),
        }
    }

    /// The injected form `name=content;...` of the aliases, contents escaped.
    pub fn serialize_for_injection(&self) -> (r: String)
        ensures
            r@ == serialized(self@),
            keys_unique(self@),
    {
        proof {
            use_type_invariant(self);
        }
        let ghost e = self@;
        let mut parts: Vec<Vec<char>> = Vec::new();
        let mut i: usize = 0;
        while i < self.aliases.len()
            invariant
                e == self@,
                i <= e.len(),
                parts@.len() == i,
                forall|k: int| 0 <= k < i ==> (#[trigger] parts@[k])@ == entry_text(e[k]),
            decreases self.aliases.len() - i,
        {
            let mut piece = chars_of(self.aliases[i].0.as_str());
            piece.push('=');
            let content = chars_of(self.aliases[i].1.as_str());
            let esc = escape_chars(&content);
            crate::text::extend_chars(&mut piece, &esc);
            assert(piece@ == entry_text(e[i as int]));
            parts.push(piece);
            i += 1;
        }
        let sep = lit1(';');
        let joined = join_chars(&parts, &sep);
        assert(parts@.map_values(|p: Vec<char>| p@) =~= e.map_values(
            |p: (Seq<char>, Seq<char>)| entry_text(p),
        ));
        string_of(&joined)
    }

    /// Reads an injected alias list back; a non-empty piece without `=` is an
    /// error.
    pub fn deserialize_from_injection(serialized: &str) -> (r: Result<AliasManager, AliasError>)
        ensures
            match r {
                Ok(m) => deserialized(serialized@) == Ok::<Entries, Seq<char>>(m@),
                Err(AliasError::InvalidInjection(p)) => deserialized(serialized@) == Err::<
                    Entries,
                    Seq<char>,
                >(p@),
                Err(_) => false,
            },
    {
        let s = chars_of(serialized);
        let t = trim_chars(&s);
        let mut m = AliasManager::new();
        if t.len() == 0 {
            return Ok(m);
        }
        let pieces = split_chars(&s, ';');
        let ghost all = pieces@.map_values(|p: Vec<char>| p@);
        assert(all.skip(0) =~= all);
        let mut i: usize = 0;
        while i < pieces.len()
            invariant
                all == pieces@.map_values(|p: Vec<char>| p@),
                all == split_on(s@, ';'),
                s@ == serialized@,
                trim(s@).len() > 0,
                i <= pieces@.len(),
                load_pieces(all, Seq::empty()) == load_pieces(all.skip(i as int), m@),
            decreases pieces.len() - i,
        {
            assert(all.skip(i as int).skip(1) =~= all.skip(i + 1));
            assert(all.skip(i as int)[0] == pieces@[i as int]@);
            let tp = trim_chars(&pieces[i]);
            if tp.len() > 0 {
                match find_char_in(&tp, '=') {
                    None => {
                        assert(load_pieces(all.skip(i as int), m@) == Err::<Entries, Seq<char>>(
                            tp@,
                        ));
                        assert(deserialized(s@) == load_pieces(all, Seq::empty()));
                        return Err(AliasError::InvalidInjection(string_of(&tp)));
                    },
                    Some(k) => {
                        let raw_name = slice_chars(&tp, 0, k);
                        let name = trim_chars(&raw_name);
                        let esc = slice_chars(&tp, k + 1, tp.len());
                        let content = unescape_chars(&esc);
                        assert(raw_name@ =~= tp@.take(k as int));
                        assert(esc@ =~= tp@.skip(k + 1));
                        m.add_alias(string_of(&name), string_of(&content));
                    },
                }
            }
            i += 1;
        }
        assert(all.skip(i as int) =~= Seq::<Seq<char>>::empty());
        Ok(m)
    }

    /// The aliases injected into a method: those of its first attribute
    /// that carries an alias list (see `extracted`), or none.
    pub fn from_method_attributes(attrs: &[MethodAttribute]) -> (r: Result<
        AliasManager,
        AliasError,
    >)
        ensures
            match r {
                Ok(m) => extracted(attrs@) == Ok::<Entries, Seq<char>>(m@),
                Err(AliasError::InvalidInjection(p)) => extracted(attrs@) == Err::<
                    Entries,
                    Seq<char>,
                >(p@),
                Err(_) => false,
            },
    {
        let mut i: usize = 0;
        assert(attrs@.skip(0) =~= attrs@);
        while i < attrs.len()
            invariant
                i <= attrs@.len(),
                extracted(attrs@) == extracted(attrs@.skip(i as int)),
            decreases attrs.len() - i,
        {
            assert(attrs@.skip(i as int).skip(1) =~= attrs@.skip(i + 1));
            assert(attrs@.skip(i as int)[0] == attrs@[i as int]);
            if attrs[i].is_alias_list {
                match &attrs[i].string_value {
                    Some(value) => {
                        return AliasManager::deserialize_from_injection(value.as_str());
                    },
                    None => {},
                }
            }
            i += 1;
        }
        assert(attrs@.skip(i as int) =~= Seq::<MethodAttribute>::empty());
        Ok(AliasManager::new())
    }
}

impl Clone for AliasManager {
    fn clone(&self) -> (r: Self)
        ensures
            r@ == self@,
    {
        proof {
            use_type_invariant(self);
        }
        let mut v: Vec<(String, String)> = Vec::new();
        let mut i: usize = 0;
        while i < self.aliases.len()
            invariant
                i <= self.aliases@.len(),
                v@.len() == i,
                keys_unique(self@),
                forall|k: int|
                    0 <= k < i ==> (#[trigger] v@[k]).0@ == self.aliases@[k].0@ && v@[k].1@
                        == self.aliases@[k].1@,
            decreases self.aliases.len() - i,
        {
            let p = (self.aliases[i].0.clone(), self.aliases[i].1.clone());
            v.push(p);
            i += 1;
        }
        assert(v@.map_values(|p: (String, String)| (p.0@, p.1@)) =~= self@);
        AliasManager { aliases: v }
    }
}

impl Default for AliasManager {
    fn default() -> (r: Self)
        ensures
            r@ == Seq::<(Seq<char>, Seq<char>)>::empty(),
    {
        Self::new()
    }
}

} // verus!
