//! Quoting for POSIX shells and AppleScript string literals, and the
//! file-name stem used for per-pane prompt files.

use vstd::prelude::*;
use crate::text::{
    ascii_alphanumeric, char_is_alphanumeric, chars_of, is_alphanumeric, lemma_replace_char_concat, push_char, push_str,
    replace, replace_char, string_from_range, to_owned_string,
};

verus! {

// ---------------------------------------------------------------------------
// Shell quoting
// ---------------------------------------------------------------------------

/// What a single quote inside a single-quoted shell word is replaced with:
/// close the quote, a double-quoted `'`, reopen the quote.
pub open spec fn sh_quote_escape() -> Seq<char> {
    seq!['\'', '"', '\'', '"', '\'']
}

/// `value` as one single-quoted POSIX shell word.
pub open spec fn sh_quote_spec(value: Seq<char>) -> Seq<char> {
    seq!['\''] + replace_char(value, '\'', sh_quote_escape()) + seq!['\'']
}

/// `c` in front of the text in `o`, if there is one.
pub open spec fn opt_prepend(c: char, o: Option<Seq<char>>) -> Option<Seq<char>> {
    match o {
        Some(t) => Some(seq![c] + t),
        None => None,
    }
}

/// The text that a POSIX shell reads from a word made of single-quoted
/// stretches and `"'"` pieces, or `None` when the word is not of that shape.
/// `in_single` tells whether a single-quoted stretch is open.
pub open spec fn sh_word_value(s: Seq<char>, in_single: bool) -> Option<Seq<char>>
    decreases s.len(),
{
    if s.len() == 0 {
        if in_single {
            None
        } else {
            Some(Seq::empty())
        }
    } else if in_single {
        if s[0] == '\'' {
            sh_word_value(s.drop_first(), false)
        } else {
            opt_prepend(s[0], sh_word_value(s.drop_first(), true))
        }
    } else if s[0] == '\'' {
        sh_word_value(s.drop_first(), true)
    } else if s.len() >= 3 && s[0] == '"' && s[1] == '\'' && s[2] == '"' {
        opt_prepend('\'', sh_word_value(s.skip(3), false))
    } else {
        None
    }
}

proof fn lemma_sh_quote_body(v: Seq<char>, tail: Seq<char>)
    ensures
        sh_word_value(replace_char(v, '\'', sh_quote_escape()) + seq!['\''] + tail, true)
            == match sh_word_value(tail, false) {
            Some(t) => Some(v + t),
            None => None::<Seq<char>>,
        },
    decreases v.len(),
{
    let e = sh_quote_escape();
    if v.len() == 0 {
        assert(replace_char(v, '\'', e) =~= Seq::<char>::empty());
        let s = replace_char(v, '\'', e) + seq!['\''] + tail;
        assert(s[0] == '\'');
        assert(s.drop_first() =~= tail);
        assert(sh_word_value(s, true) == sh_word_value(tail, false));
        match sh_word_value(tail, false) {
            Some(t) => assert(v + t =~= t),
            None => {},
        }
    } else {
        let c = v[0];
        let rest = v.drop_first();
        assert(v =~= seq![c] + rest);
        lemma_replace_char_concat(seq![c], rest, '\'', e);
        assert(seq![c].drop_last() =~= Seq::<char>::empty());
        assert(replace_char(Seq::<char>::empty(), '\'', e) =~= Seq::<char>::empty());
        let rrest = replace_char(rest, '\'', e);
        let s = replace_char(v, '\'', e) + seq!['\''] + tail;
        lemma_sh_quote_body(rest, tail);
        let after = rrest + seq!['\''] + tail;
        if c == '\'' {
            assert(replace_char(seq![c], '\'', e) =~= e);
            assert(s =~= e + after);
            assert(s[0] == '\'');
            let s1 = s.drop_first();
            assert(s1 =~= seq!['"', '\'', '"', '\''] + after);
            assert(s1[0] == '"' && s1[1] == '\'' && s1[2] == '"');
            let s2 = s1.skip(3);
            assert(s2 =~= seq!['\''] + after);
            assert(s2[0] == '\'');
            assert(s2.drop_first() =~= after);
            assert(sh_word_value(s2, false) == sh_word_value(after, true));
            assert(sh_word_value(s1, false) == opt_prepend('\'', sh_word_value(s2, false)));
            assert(sh_word_value(s, true) == sh_word_value(s1, false));
            match sh_word_value(tail, false) {
                Some(t) => assert(seq![c] + (rest + t) =~= v + t),
                None => {},
            }
        } else {
            assert(replace_char(seq![c], '\'', e) =~= seq![c]);
            assert(s =~= seq![c] + after);
            assert(s[0] == c);
            assert(s.drop_first() =~= after);
            assert(sh_word_value(s, true) == opt_prepend(c, sh_word_value(after, true)));
            match sh_word_value(tail, false) {
                Some(t) => assert(seq![c] + (rest + t) =~= v + t),
                None => {},
            }
        }
    }
}

/// Law: a POSIX shell reads back exactly `value` from `sh_quote(value)`.
pub proof fn lemma_sh_quote_round_trip(value: Seq<char>)
    ensures
        sh_word_value(sh_quote_spec(value), false) == Some(value),
{
    let q = sh_quote_spec(value);
    let body = replace_char(value, '\'', sh_quote_escape()) + seq!['\''] + Seq::<char>::empty();
    assert(q[0] == '\'');
    assert(q.drop_first() =~= body);
    lemma_sh_quote_body(value, Seq::<char>::empty());
    assert(sh_word_value(Seq::<char>::empty(), false) == Some(Seq::<char>::empty()));
    assert(value + Seq::<char>::empty() =~= value);
}

/// `value` as one single-quoted POSIX shell word; single quotes inside become `'"'"'`.
pub fn sh_quote(value: &str) -> (r: String)
    ensures
        r@ == sh_quote_spec(value@),
{
    let mut r = String::new();
    push_char(&mut r, '\'');
    let body = replace(value, '\'', "'\"'\"'");
    proof {
        reveal_strlit("'\"'\"'");
        assert("'\"'\"'"@ =~= sh_quote_escape());
    }
    push_str(&mut r, body.as_str());
    push_char(&mut r, '\'');
    assert(r@ =~= sh_quote_spec(value@));
    r
}

// ---------------------------------------------------------------------------
// AppleScript quoting
// ---------------------------------------------------------------------------

/// The body of an AppleScript string literal for `value`: backslashes doubled,
/// double quotes escaped, carriage returns dropped, line feeds written `\n`.
pub open spec fn applescript_escape(value: Seq<char>) -> Seq<char> {
    replace_char(
        replace_char(
            replace_char(replace_char(value, '\\', seq!['\\', '\\']), '"', seq!['\\', '"']),
            '\r',
            Seq::empty(),
        ),
        '\n',
        seq!['\\', 'n'],
    )
}

/// `value` as an AppleScript string literal.
pub open spec fn applescript_quote_spec(value: Seq<char>) -> Seq<char> {
    seq!['"'] + applescript_escape(value) + seq!['"']
}

/// `s` without its carriage returns.
pub open spec fn without_cr(s: Seq<char>) -> Seq<char>
    decreases s.len(),
{
    if s.len() == 0 {
        s
    } else if s[0] == '\r' {
        without_cr(s.drop_first())
    } else {
        seq![s[0]] + without_cr(s.drop_first())
    }
}

/// The text that AppleScript reads from the body of a string literal that
/// uses the escapes `\\`, `\"` and `\n`, up to the closing quote, which must
/// end `s`; `None` when `s` is not of that shape.
pub open spec fn applescript_body_value(s: Seq<char>) -> Option<Seq<char>>
    decreases s.len(),
{
    if s.len() == 0 {
        None
    } else if s[0] == '"' {
        if s.len() == 1 {
            Some(Seq::empty())
        } else {
            None
        }
    } else if s[0] == '\\' {
        if s.len() >= 2 && s[1] == '\\' {
            opt_prepend('\\', applescript_body_value(s.skip(2)))
        } else if s.len() >= 2 && s[1] == '"' {
            opt_prepend('"', applescript_body_value(s.skip(2)))
        } else if s.len() >= 2 && s[1] == 'n' {
            opt_prepend('\n', applescript_body_value(s.skip(2)))
        } else {
            None
        }
    } else {
        opt_prepend(s[0], applescript_body_value(s.drop_first()))
    }
}

/// The text that AppleScript reads from the string literal `s`.
pub open spec fn applescript_literal_value(s: Seq<char>) -> Option<Seq<char>> {
    if s.len() > 0 && s[0] == '"' {
        applescript_body_value(s.drop_first())
    } else {
        None
    }
}

proof fn lemma_replace_single(c: char, from: char, to: Seq<char>)
    ensures
        replace_char(seq![c], from, to) == if c == from {
            to
        } else {
            seq![c]
        },
{
    assert(seq![c].drop_last() =~= Seq::<char>::empty());
    assert(replace_char(Seq::<char>::empty(), from, to) =~= Seq::<char>::empty());
    if c == from {
        assert(Seq::<char>::empty() + to =~= to);
    } else {
        assert(Seq::<char>::empty() + seq![c] =~= seq![c]);
    }
}

proof fn lemma_replace_pair(a: char, b: char, from: char, to: Seq<char>)
    requires
        a != from,
        b != from,
    ensures
        replace_char(seq![a, b], from, to) == seq![a, b],
{
    assert(seq![a, b] =~= seq![a] + seq![b]);
    lemma_replace_char_concat(seq![a], seq![b], from, to);
    lemma_replace_single(a, from, to);
    lemma_replace_single(b, from, to);
    assert(seq![a] + seq![b] =~= seq![a, b]);
}

proof fn lemma_replace_empty(from: char, to: Seq<char>)
    ensures
        replace_char(Seq::<char>::empty(), from, to) == Seq::<char>::empty(),
{
}

/// The escape of one character.
proof fn lemma_applescript_escape_char(c: char)
    ensures
        applescript_escape(seq![c]) == if c == '\\' {
            seq!['\\', '\\']
        } else if c == '"' {
            seq!['\\', '"']
        } else if c == '\r' {
            Seq::<char>::empty()
        } else if c == '\n' {
            seq!['\\', 'n']
        } else {
            seq![c]
        },
{
    let bs = seq!['\\', '\\'];
    let dq = seq!['\\', '"'];
    let nl = seq!['\\', 'n'];
    lemma_replace_single(c, '\\', bs);
    if c == '\\' {
        lemma_replace_pair('\\', '\\', '"', dq);
        lemma_replace_pair('\\', '\\', '\r', Seq::empty());
        lemma_replace_pair('\\', '\\', '\n', nl);
    } else {
        lemma_replace_single(c, '"', dq);
        if c == '"' {
            lemma_replace_pair('\\', '"', '\r', Seq::empty());
            lemma_replace_pair('\\', '"', '\n', nl);
        } else {
            lemma_replace_single(c, '\r', Seq::empty());
            if c == '\r' {
                lemma_replace_empty('\n', nl);
            } else {
                lemma_replace_single(c, '\n', nl);
            }
        }
    }
}

/// The escape of a concatenation is the concatenation of the escapes.
proof fn lemma_applescript_escape_concat(a: Seq<char>, b: Seq<char>)
    ensures
        applescript_escape(a + b) == applescript_escape(a) + applescript_escape(b),
{
    let bs = seq!['\\', '\\'];
    let dq = seq!['\\', '"'];
    let nl = seq!['\\', 'n'];
    lemma_replace_char_concat(a, b, '\\', bs);
    let a1 = replace_char(a, '\\', bs);
    let b1 = replace_char(b, '\\', bs);
    lemma_replace_char_concat(a1, b1, '"', dq);
    let a2 = replace_char(a1, '"', dq);
    let b2 = replace_char(b1, '"', dq);
    lemma_replace_char_concat(a2, b2, '\r', Seq::empty());
    let a3 = replace_char(a2, '\r', Seq::empty());
    let b3 = replace_char(b2, '\r', Seq::empty());
    lemma_replace_char_concat(a3, b3, '\n', nl);
}

proof fn lemma_applescript_body(v: Seq<char>)
    ensures
        applescript_body_value(applescript_escape(v) + seq!['"']) == Some(without_cr(v)),
    decreases v.len(),
{
    if v.len() == 0 {
        assert(replace_char(v, '\\', seq!['\\', '\\']) =~= Seq::<char>::empty());
        assert(applescript_escape(v) =~= Seq::<char>::empty());
        assert(applescript_escape(v) + seq!['"'] =~= seq!['"']);
    } else {
        let c = v[0];
        let rest = v.drop_first();
        assert(v =~= seq![c] + rest);
        lemma_applescript_escape_concat(seq![c], rest);
        lemma_applescript_escape_char(c);
        lemma_applescript_body(rest);
        let after = applescript_escape(rest) + seq!['"'];
        let s = applescript_escape(v) + seq!['"'];
        assert(s =~= applescript_escape(seq![c]) + after);
        if c == '\\' {
            assert(s =~= seq!['\\', '\\'] + after);
            assert(s.skip(2) =~= after);
            assert(seq![c] + without_cr(rest) =~= without_cr(v));
        } else if c == '"' {
            assert(s =~= seq!['\\', '"'] + after);
            assert(s.skip(2) =~= after);
            assert(seq![c] + without_cr(rest) =~= without_cr(v));
        } else if c == '\r' {
            assert(s =~= after);
        } else if c == '\n' {
            assert(s =~= seq!['\\', 'n'] + after);
            assert(s.skip(2) =~= after);
            assert(seq![c] + without_cr(rest) =~= without_cr(v));
        } else {
            assert(s =~= seq![c] + after);
            assert(s.drop_first() =~= after);
            assert(seq![c] + without_cr(rest) =~= without_cr(v));
        }
    }
}

/// Law: AppleScript reads back from `applescript_quote(value)` exactly `value`
/// without its carriage returns.
pub proof fn lemma_applescript_quote_round_trip(value: Seq<char>)
    ensures
        applescript_literal_value(applescript_quote_spec(value)) == Some(without_cr(value)),
{
    let q = applescript_quote_spec(value);
    assert(q.drop_first() =~= applescript_escape(value) + seq!['"']);
    lemma_applescript_body(value);
}

/// `value` as an AppleScript string literal.
pub fn applescript_quote(value: &str) -> (r: String)
    ensures
        r@ == applescript_quote_spec(value@),
{
    let step1 = replace(value, '\\', "\\\\");
    let step2 = replace(step1.as_str(), '"', "\\\"");
    let step3 = replace(step2.as_str(), '\r', "");
    let step4 = replace(step3.as_str(), '\n', "\\n");
    proof {
        reveal_strlit("\\\\");
        reveal_strlit("\\\"");
        reveal_strlit("");
        reveal_strlit("\\n");
        assert("\\\\"@ =~= seq!['\\', '\\']);
        assert("\\\""@ =~= seq!['\\', '"']);
        assert(""@ =~= Seq::<char>::empty());
        assert("\\n"@ =~= seq!['\\', 'n']);
    }
    let mut r = String::new();
    push_char(&mut r, '"');
    push_str(&mut r, step4.as_str());
    push_char(&mut r, '"');
    assert(r@ =~= applescript_quote_spec(value@));
    r
}

// ---------------------------------------------------------------------------
// File-name stems
// ---------------------------------------------------------------------------

/// A character kept in a file-name stem: alphanumeric, `-` or `_`.
pub open spec fn is_stem_char(c: char) -> bool {
    char_is_alphanumeric(c) || c == '-' || c == '_'
}

/// `c` when it may stand in a stem, `-` otherwise.
pub open spec fn stem_char(c: char) -> char {
    if is_stem_char(c) {
        c
    } else {
        '-'
    }
}

/// `s` with its leading dashes removed.
pub open spec fn trim_start_dash(s: Seq<char>) -> Seq<char>
    decreases s.len(),
{
    if s.len() > 0 && s[0] == '-' {
        trim_start_dash(s.drop_first())
    } else {
        s
    }
}

/// `s` with its trailing dashes removed.
pub open spec fn trim_end_dash(s: Seq<char>) -> Seq<char>
    decreases s.len(),
{
    if s.len() > 0 && s.last() == '-' {
        trim_end_dash(s.drop_last())
    } else {
        s
    }
}

/// The stem for a pane title: every character that is not alphanumeric, `-`
/// or `_` becomes `-`, dashes at both ends are removed, and an empty result
/// becomes `pane`.
pub open spec fn safe_file_stem_spec(title: Seq<char>) -> Seq<char> {
    let t = trim_end_dash(trim_start_dash(title.map_values(|c: char| stem_char(c))));
    if t.len() == 0 {
        seq!['p', 'a', 'n', 'e']
    } else {
        t
    }
}

proof fn lemma_trim_start_dash_is_suffix(s: Seq<char>)
    ensures
        exists|k: int| 0 <= k <= s.len() && trim_start_dash(s) == s.skip(k),
        trim_start_dash(s).len() > 0 ==> trim_start_dash(s)[0] != '-',
    decreases s.len(),
{
    if s.len() > 0 && s[0] == '-' {
        lemma_trim_start_dash_is_suffix(s.drop_first());
        let k = choose|k: int|
            0 <= k <= s.drop_first().len() && trim_start_dash(s.drop_first()) == s.drop_first().skip(k);
        assert(s.drop_first().skip(k) =~= s.skip(k + 1));
    } else {
        assert(s.skip(0) =~= s);
    }
}

proof fn lemma_trim_end_dash_is_prefix(s: Seq<char>)
    ensures
        exists|k: int| 0 <= k <= s.len() && trim_end_dash(s) == s.take(k),
        trim_end_dash(s).len() > 0 ==> trim_end_dash(s).last() != '-',
    decreases s.len(),
{
    if s.len() > 0 && s.last() == '-' {
        lemma_trim_end_dash_is_prefix(s.drop_last());
        let k = choose|k: int|
            0 <= k <= s.drop_last().len() && trim_end_dash(s.drop_last()) == s.drop_last().take(k);
        assert(s.drop_last().take(k) =~= s.take(k));
    } else {
        assert(s.take(s.len() as int) =~= s);
    }
}

/// Law: the stem of any title is `pane`, or else a non-empty run of
/// alphanumerics, `-` and `_` that neither starts nor ends with `-`.
pub proof fn lemma_safe_file_stem_shape(title: Seq<char>)
    ensures
        safe_file_stem_spec(title) == seq!['p', 'a', 'n', 'e'] || ({
            let r = safe_file_stem_spec(title);
            &&& r.len() > 0
            &&& r[0] != '-'
            &&& r.last() != '-'
            &&& forall|i: int| 0 <= i < r.len() ==> is_stem_char(#[trigger] r[i])
        }),
{
    let m = title.map_values(|c: char| stem_char(c));
    let a = trim_start_dash(m);
    let t = trim_end_dash(a);
    lemma_trim_start_dash_is_suffix(m);
    lemma_trim_end_dash_is_prefix(a);
    if t.len() > 0 {
        let k1 = choose|k: int| 0 <= k <= m.len() && a == m.skip(k);
        let k2 = choose|k: int| 0 <= k <= a.len() && t == a.take(k);
        assert(t[0] == a[0]);
        assert forall|i: int| 0 <= i < t.len() implies is_stem_char(#[trigger] t[i]) by {
            assert(t[i] == m[k1 + i]);
            assert(m[k1 + i] == stem_char(title[k1 + i]));
        }
    }
}

/// A text made of stem characters that neither starts nor ends with `-` is
/// its own stem.
proof fn lemma_stem_of_clean_text(t: Seq<char>)
    requires
        t.len() > 0,
        t[0] != '-',
        t.last() != '-',
        forall|i: int| 0 <= i < t.len() ==> is_stem_char(#[trigger] t[i]),
    ensures
        safe_file_stem_spec(t) == t,
{
    let m = t.map_values(|c: char| stem_char(c));
    assert(m =~= t);
    assert(trim_start_dash(m) == m);
    assert(trim_end_dash(m) == m);
}

/// Law: a stem is its own stem.
pub proof fn lemma_safe_file_stem_idempotent(title: Seq<char>)
    ensures
        safe_file_stem_spec(safe_file_stem_spec(title)) == safe_file_stem_spec(title),
{
    lemma_safe_file_stem_shape(title);
    let r = safe_file_stem_spec(title);
    if r == seq!['p', 'a', 'n', 'e'] {
        assert forall|i: int| 0 <= i < r.len() implies is_stem_char(#[trigger] r[i]) by {
            assert(ascii_alphanumeric(r[i]));
        }
    }
    lemma_stem_of_clean_text(r);
}

/// A file-name stem for a pane title (see `safe_file_stem_spec`).
pub fn safe_file_stem(title: &str) -> (r: String)
    ensures
        r@ == safe_file_stem_spec(title@),
{
    let v = chars_of(title);
    let mut m: Vec<char> = Vec::new();
    let mut i: usize = 0;
    while i < v.len()
        invariant
            i <= v.len(),
            v@ == title@,
            m@ == v@.take(i as int).map_values(|c: char| stem_char(c)),
        decreases v.len() - i,
    {
        let c = v[i];
        let keep = is_alphanumeric(c) || c == '-' || c == '_';
        if keep {
            m.push(c);
        } else {
            m.push('-');
        }
        assert(m@ =~= v@.take(i + 1).map_values(|c: char| stem_char(c)));
        i = i + 1;
    }
    assert(v@.take(v.len() as int) =~= v@);
    let ghost mapped = m@;
    let mut start: usize = 0;
    assert(m@.skip(0) =~= m@);
    while start < m.len() && m[start] == '-'
        invariant
            start <= m.len(),
            m@ == mapped,
            trim_start_dash(mapped) == trim_start_dash(mapped.skip(start as int)),
        decreases m.len() - start,
    {
        assert(mapped.skip(start as int).drop_first() =~= mapped.skip(start + 1));
        start = start + 1;
    }
    let ghost middle = mapped.skip(start as int);
    let mut end: usize = m.len();
    while end > start && m[end - 1] == '-'
        invariant
            start <= end <= m.len(),
            m@ == mapped,
            middle == mapped.skip(start as int),
            trim_end_dash(middle) == trim_end_dash(mapped.subrange(start as int, end as int)),
        decreases end - start,
    {
        assert(mapped.subrange(start as int, end as int).drop_last() =~= mapped.subrange(
            start as int,
            end - 1,
        ));
        end = end - 1;
    }
    assert(middle =~= mapped.subrange(start as int, m.len() as int));
    if start == end {
        let r = to_owned_string("pane");
        proof {
            reveal_strlit("pane");
        }
        assert(r@ =~= seq!['p', 'a', 'n', 'e']);
        r
    } else {
        string_from_range(&m, start, end)
    }
}

} // verus!
