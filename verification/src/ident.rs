//! Oracle identifier quoting.
//!
//! Oracle folds an unquoted identifier to upper case, so a table created as
//! `events_sink` is stored, and must be referenced, as `EVENTS_SINK`. A *simple*
//! identifier (the form Oracle accepts unquoted) is folded to upper case before
//! it is quoted; any other name is quoted verbatim, case preserved, with
//! embedded double quotes doubled.

use vstd::prelude::*;

use crate::text::{
    ascii_upper_char, ascii_upper_seq, chars_of, escape_doubled, is_ascii_alnum, is_ascii_alpha,
    is_ascii_lower,
    lemma_escape_no_quotes, lemma_unescape_escape, push_char, push_escaped, unescape_doubled,
};

verus! {

// ── Model ────────────────────────────────────────────────────────────────────

/// A character allowed after the first one of a simple identifier.
pub open spec fn is_ident_char(c: char) -> bool {
    is_ascii_alnum(c) || c == '_' || c == '$' || c == '#'
}

/// A leading ASCII letter followed by ASCII letters, digits, `_`, `$` or `#`.
pub open spec fn is_simple(s: Seq<char>) -> bool {
    &&& s.len() > 0
    &&& is_ascii_alpha(s[0])
    &&& forall|i: int| 1 <= i < s.len() ==> is_ident_char(#[trigger] s[i])
}

/// The name a config identifier resolves to in Oracle's catalog.
pub open spec fn folded(s: Seq<char>) -> Seq<char> {
    if is_simple(s) {
        ascii_upper_seq(s)
    } else {
        s
    }
}

/// The double-quoted identifier for `s`.
pub open spec fn quoted(s: Seq<char>) -> Seq<char> {
    seq!['"'] + escape_doubled(folded(s), '"') + seq!['"']
}

/// The name that a quoted identifier token denotes, or `None` when `t` is not
/// one well-formed quoted identifier.
pub open spec fn unquote(t: Seq<char>) -> Option<Seq<char>> {
    if t.len() >= 2 && t[0] == '"' && t.last() == '"' {
        unescape_doubled(t.subrange(1, t.len() - 1), '"')
    } else {
        None
    }
}

// ── Lemmas ───────────────────────────────────────────────────────────────────

pub proof fn lemma_simple_has_no_quotes(s: Seq<char>)
    requires
        is_simple(s),
    ensures
        !s.contains('"'),
        !ascii_upper_seq(s).contains('"'),
{
    assert forall|k: int| 0 <= k < s.len() implies s[k] != '"' && ascii_upper_seq(s)[k] != '"' by {
        if k > 0 {
            assert(is_ident_char(s[k]));
        }
    }
}

pub proof fn lemma_upper_keeps_simple(s: Seq<char>)
    requires
        is_simple(s),
    ensures
        is_simple(ascii_upper_seq(s)),
        ascii_upper_seq(ascii_upper_seq(s)) == ascii_upper_seq(s),
{
    let u = ascii_upper_seq(s);
    assert forall|i: int| 1 <= i < u.len() implies is_ident_char(#[trigger] u[i]) by {
        assert(is_ident_char(s[i]));
    }
    assert(ascii_upper_seq(u) =~= u);
}

// ── Executable functions ─────────────────────────────────────────────────────

fn simple_chars(v: &Vec<char>) -> (r: bool)
    ensures
        r == is_simple(v@),
{
    if v.len() == 0 {
        return false;
    }
    let c0 = v[0];
    if !(('A' <= c0 && c0 <= 'Z') || ('a' <= c0 && c0 <= 'z')) {
        return false;
    }
    let mut i: usize = 1;
    while i < v.len()
        invariant
            1 <= i <= v.len(),
            forall|k: int| 1 <= k < i ==> is_ident_char(#[trigger] v@[k]),
        decreases v.len() - i,
    {
        let c = v[i];
        if !(('A' <= c && c <= 'Z') || ('a' <= c && c <= 'z') || ('0' <= c && c <= '9') || c
            == '_' || c == '$' || c == '#') {
            assert(!is_ident_char(v@[i as int]));
            return false;
        }
        i = i + 1;
    }
    true
}

/// A "simple" Oracle identifier: a leading ASCII letter followed by ASCII
/// letters, digits, or `_ $ #`, the form Oracle accepts unquoted (and folds to
/// upper case). Anything else must be quoted verbatim to be valid.
pub fn is_simple_ident(name: &str) -> (r: bool)
    ensures
        r == is_simple(name@),
{
    let v = chars_of(name);
    simple_chars(&v)
}

/// Appends `folded(v)`.
fn push_folded(out: &mut String, v: &Vec<char>, simple: bool)
    requires
        simple == is_simple(v@),
    ensures
        final(out)@ == old(out)@ + folded(v@),
{
    let mut i: usize = 0;
    while i < v.len()
        invariant
            i <= v.len(),
            simple == is_simple(v@),
            out@ == old(out)@ + folded(v@).take(i as int),
        decreases v.len() - i,
    {
        let c = if simple {
            ascii_upper_char(v[i])
        } else {
            v[i]
        };
        push_char(out, c);
        assert(folded(v@).take(i + 1) =~= folded(v@).take(i as int).push(c));
        i = i + 1;
    }
    assert(folded(v@).take(v.len() as int) =~= folded(v@));
}

/// Quotes an Oracle identifier the way Oracle's own parser resolves a name: a
/// simple identifier is folded to upper case and quoted (safe against reserved
/// words); any other name is quoted verbatim, case preserved, with embedded
/// double quotes doubled. Names that Oracle's catalog hands out already arrive
/// upper-cased, so folding leaves them unchanged.
pub fn quote_ident(name: &str) -> (r: String)
    ensures
        r@ == quoted(name@),
        is_simple(name@) ==> r@ == seq!['"'] + ascii_upper_seq(name@) + seq!['"'],
        !is_simple(name@) ==> r@ == seq!['"'] + escape_doubled(name@, '"') + seq!['"'],
{
    let v = chars_of(name);
    let simple = simple_chars(&v);
    let mut out = String::new();
    push_char(&mut out, '"');
    if simple {
        push_folded(&mut out, &v, simple);
        proof {
            lemma_simple_has_no_quotes(v@);
            lemma_escape_no_quotes(ascii_upper_seq(v@), '"');
        }
    } else {
        push_escaped(&mut out, &v, '"');
    }
    push_char(&mut out, '"');
    out
}

/// The form a config identifier resolves to for comparison against Oracle's
/// catalog names (which arrive upper-cased): a simple identifier folded to
/// upper case, anything else verbatim.
pub fn fold_ident(name: &str) -> (r: String)
    ensures
        r@ == folded(name@),
        is_simple(name@) ==> r@ == ascii_upper_seq(name@),
        !is_simple(name@) ==> r@ == name@,
{
    let v = chars_of(name);
    let simple = simple_chars(&v);
    let mut out = String::new();
    push_folded(&mut out, &v, simple);
    assert(out@ =~= folded(v@));
    out
}

/// Two names denote the same Oracle identifier.
pub open spec fn same_ident(a: Seq<char>, b: Seq<char>) -> bool {
    folded(a) == folded(b)
}

/// Some name of `names` denotes the same Oracle identifier as `n`.
pub open spec fn has_ident(names: Seq<Seq<char>>, n: Seq<char>) -> bool {
    exists|j: int| 0 <= j < names.len() && same_ident(#[trigger] names[j], n)
}

/// Whether two names denote the same Oracle identifier, the way Oracle
/// resolves them: config names such as a merge key or a cursor column match
/// the catalog's upper-cased names (`id` is `ID`).
pub fn same_ident_exec(a: &str, b: &str) -> (r: bool)
    ensures
        r == same_ident(a@, b@),
{
    let fa = fold_ident(a);
    let fb = fold_ident(b);
    fa == fb
}

// ── Laws ─────────────────────────────────────────────────────────────────────

/// Quoting is folding put in quotes: for a name without double quotes,
/// `quote_ident(name)` is `fold_ident(name)` between two double quotes.
pub proof fn law_quote_is_quoted_fold(name: Seq<char>)
    requires
        !name.contains('"'),
    ensures
        quoted(name) == seq!['"'] + folded(name) + seq!['"'],
{
    if is_simple(name) {
        lemma_simple_has_no_quotes(name);
        lemma_escape_no_quotes(ascii_upper_seq(name), '"');
    } else {
        lemma_escape_no_quotes(name, '"');
    }
}

/// A quoted identifier is exactly one well-formed quoted token, and reading it
/// back gives the folded name: no name can escape its quotes.
pub proof fn law_unquote_quoted(name: Seq<char>)
    ensures
        unquote(quoted(name)) == Some(folded(name)),
{
    let q = quoted(name);
    let body = escape_doubled(folded(name), '"');
    assert(q.subrange(1, q.len() - 1) =~= body);
    lemma_unescape_escape(folded(name), '"');
}

/// Folding is idempotent: a name that is already folded (as every catalog name
/// is) is left unchanged, and quoting a folded name quotes the same table.
pub proof fn law_fold_idempotent(name: Seq<char>)
    ensures
        folded(folded(name)) == folded(name),
        quoted(folded(name)) == quoted(name),
{
    if is_simple(name) {
        lemma_upper_keeps_simple(name);
    }
}

/// Two names that fold to different catalog names never quote to the same
/// token.
pub proof fn law_quote_injective_on_folded(a: Seq<char>, b: Seq<char>)
    requires
        folded(a) != folded(b),
    ensures
        quoted(a) != quoted(b),
{
    law_unquote_quoted(a);
    law_unquote_quoted(b);
}

/// Names from Oracle's catalog (simple names already in upper case) fold to
/// themselves, so folding is a no-op for them.
pub proof fn law_catalog_names_unchanged(name: Seq<char>)
    requires
        forall|i: int| 0 <= i < name.len() ==> !is_ascii_lower(#[trigger] name[i]),
    ensures
        folded(name) == name,
{
    if is_simple(name) {
        assert(ascii_upper_seq(name) =~= name);
    }
}

/// Simple names that differ only in ASCII letter case denote the same Oracle
/// identifier (`event_sequence` is `EVENT_SEQUENCE`).
pub proof fn law_simple_names_match_ignoring_case(a: Seq<char>, b: Seq<char>)
    requires
        is_simple(a),
        is_simple(b),
        ascii_upper_seq(a) == ascii_upper_seq(b),
    ensures
        same_ident(a, b),
{
}


/// Which names are simple, by character class: a name is simple exactly when
/// it is non-empty, starts with an ASCII letter, and every later character is
/// an ASCII letter (`a` to `z` or `A` to `Z`), an ASCII digit, `_`, `$` or `#`.
/// A simple name is quoted upper-cased: each `a` to `z` becomes the letter 32
/// code points below it, every other character stays.
pub proof fn law_simple_by_character_class(s: Seq<char>)
    ensures
        is_simple(s) <==> (s.len() > 0 && (('a' <= s[0] && s[0] <= 'z') || ('A' <= s[0] && s[0]
            <= 'Z')) && forall|i: int|
            1 <= i < s.len() ==> {
                let c = #[trigger] s[i];
                ('a' <= c && c <= 'z') || ('A' <= c && c <= 'Z') || ('0' <= c && c <= '9') || c
                    == '_' || c == '$' || c == '#'
            }),
        is_simple(s) ==> quoted(s) == seq!['"'] + Seq::new(
            s.len(),
            |i: int|
                if 'a' <= s[i] && s[i] <= 'z' {
                    ((s[i] as int) - 32) as char
                } else {
                    s[i]
                },
        ) + seq!['"'],
{
    if is_simple(s) {
        lemma_simple_has_no_quotes(s);
        crate::text::lemma_escape_no_quotes(ascii_upper_seq(s), '"');
        assert(ascii_upper_seq(s) =~= Seq::new(
            s.len(),
            |i: int|
                if 'a' <= s[i] && s[i] <= 'z' {
                    ((s[i] as int) - 32) as char
                } else {
                    s[i]
                },
        ));
    }
}

} // verus!
