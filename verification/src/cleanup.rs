//! Light-touch cleanup of a transcript: lower-case a capital first letter
//! and drop a trailing period or question mark, each step switched on by
//! `CleanupConfig`.

use vstd::prelude::*;

use crate::config::CleanupConfig;
use crate::text::{
    char_is_lowercase, char_is_uppercase, char_to_lowercase, chars_of, is_lowercase_char,
    is_uppercase_char, lemma_trim_end_prefix, lowercase_of, push_str, string_of, string_of_range, trim_end_len,
    trim_end_spec, is_whitespace_char,
};

verus! {

/// The text with its first char replaced by `first_lowered`, when that
/// char is a capital (`first_upper`) standing alone or starting a word
/// whose second char is a space or lower case (`second_lower`).
pub open spec fn lower_leading_capital_spec(
    s: Seq<char>,
    first_upper: bool,
    first_lowered: Seq<char>,
    second_lower: bool,
) -> Seq<char> {
    if s.len() == 0 || !first_upper {
        s
    } else if s.len() == 1 {
        first_lowered
    } else if s[1] == ' ' || second_lower {
        first_lowered + s.drop_first()
    } else {
        s
    }
}

/// The text with a leading capital lowered, when the capital stands alone
/// or starts a lower-case word: `"Hello"` and `"H ello"` change,
/// `"HELLO"` does not.
pub open spec fn remove_beginning_caps_spec(s: Seq<char>) -> Seq<char> {
    if s.len() == 0 {
        s
    } else {
        lower_leading_capital_spec(
            s,
            is_uppercase_char(s[0]),
            lowercase_of(s[0]),
            s.len() > 1 && is_lowercase_char(s[1]),
        )
    }
}

/// The text without the char `mark` that ends it once trailing whitespace
/// is ignored; when the mark goes, the trailing whitespace goes with it.
/// A text that is only the mark (plus whitespace) is kept.
pub open spec fn remove_end_mark_spec(s: Seq<char>, mark: char) -> Seq<char> {
    let t = trim_end_spec(s);
    if s.len() == 0 || t.len() == 0 {
        s
    } else if t.last() == mark && t.len() > 1 {
        t.drop_last()
    } else {
        s
    }
}

/// What `apply_cleanup` returns for `s` under `cfg`.
pub open spec fn apply_cleanup_spec(s: Seq<char>, cfg: CleanupConfig) -> Seq<char> {
    let a = if cfg.capitalize {
        remove_beginning_caps_spec(s)
    } else {
        s
    };
    let b = if cfg.end_period {
        remove_end_mark_spec(a, '.')
    } else {
        a
    };
    if cfg.end_question {
        remove_end_mark_spec(b, '?')
    } else {
        b
    }
}

/// Applies the enabled cleanup steps in order: capital first letter, then
/// trailing period, then trailing question mark.
pub fn apply_cleanup(text: &str, cleanup_cfg: &CleanupConfig) -> (r: String)
    ensures
        r@ == apply_cleanup_spec(text@, *cleanup_cfg),
{
    let mut result = String::new();
    push_str(&mut result, text);
    if cleanup_cfg.capitalize {
        result = remove_beginning_caps(result.as_str());
    }
    if cleanup_cfg.end_period {
        result = remove_end_period(result.as_str());
    }
    if cleanup_cfg.end_question {
        result = remove_end_question(result.as_str());
    }
    result
}

/// Lowers a capital first letter that stands alone or starts a
/// lower-case word. The case of the first two chars and the lower case of
/// the first come from `char`; `lower_leading_capital` decides.
pub fn remove_beginning_caps(text: &str) -> (r: String)
    ensures
        r@ == remove_beginning_caps_spec(text@),
{
    let cs = chars_of(text);
    if cs.len() == 0 {
        return string_of(&cs);
    }
    let first_upper = char_is_uppercase(cs[0]);
    let first_lower = string_of(&char_to_lowercase(cs[0]));
    let second_lower = cs.len() > 1 && char_is_lowercase(cs[1]);
    lower_leading_capital(text, first_upper, first_lower.as_str(), second_lower)
}

/// `text` with its first char replaced by `first_lowered` when
/// `first_upper` holds and the text is that one char, or its second char
/// is a space or `second_lower` holds; otherwise `text` as it is.
pub fn lower_leading_capital(
    text: &str,
    first_upper: bool,
    first_lowered: &str,
    second_lower: bool,
) -> (r: String)
    ensures
        r@ == lower_leading_capital_spec(text@, first_upper, first_lowered@, second_lower),
{
    let cs = chars_of(text);
    if cs.len() == 0 || !first_upper {
        return string_of(&cs);
    }
    if cs.len() == 1 {
        let mut out = String::new();
        push_str(&mut out, first_lowered);
        return out;
    }
    if cs[1] == ' ' || second_lower {
        let mut out = String::new();
        push_str(&mut out, first_lowered);
        let rest = string_of_range(&cs, 1, cs.len());
        push_str(&mut out, rest.as_str());
        assert(cs@.subrange(1, cs@.len() as int) =~= cs@.drop_first());
        out
    } else {
        string_of(&cs)
    }
}

/// Removes `mark` from the end of the text, ignoring trailing whitespace.
fn remove_end_mark(text: &str, mark: char) -> (r: String)
    ensures
        r@ == remove_end_mark_spec(text@, mark),
{
    let cs = chars_of(text);
    let n = trim_end_len(&cs);
    if cs.len() == 0 || n == 0 {
        return string_of(&cs);
    }
    assert(cs@.take(n as int).last() == cs@[n - 1]);
    if cs[n - 1] == mark && n > 1 {
        assert(cs@.subrange(0, n - 1) =~= cs@.take(n as int).drop_last());
        string_of_range(&cs, 0, n - 1)
    } else {
        string_of(&cs)
    }
}

/// Drops a trailing period (ignoring trailing whitespace), unless the text
/// is only a period.
pub fn remove_end_period(text: &str) -> (r: String)
    ensures
        r@ == remove_end_mark_spec(text@, '.'),
{
    remove_end_mark(text, '.')
}

/// Drops a trailing question mark (ignoring trailing whitespace), unless
/// the text is only a question mark.
pub fn remove_end_question(text: &str) -> (r: String)
    ensures
        r@ == remove_end_mark_spec(text@, '?'),
{
    remove_end_mark(text, '?')
}

/// A cleanup step that is off leaves its mark: with the question-mark step
/// off, a text of two or more chars that ends in `?` still ends in `?`
/// (the capital step touches only the first char, and the period step
/// drops only a final `.`); likewise, with the period step off, a final
/// `.` stays.
pub proof fn lemma_disabled_mark_kept(s: Seq<char>, cfg: CleanupConfig)
    requires
        s.len() >= 2,
    ensures
        !cfg.end_question && s.last() == '?' ==> apply_cleanup_spec(s, cfg).len() > 0
            && apply_cleanup_spec(s, cfg).last() == '?',
        !cfg.end_period && s.last() == '.' ==> apply_cleanup_spec(s, cfg).len() > 0
            && apply_cleanup_spec(s, cfg).last() == '.',
{
    let a = if cfg.capitalize {
        remove_beginning_caps_spec(s)
    } else {
        s
    };
    assert(a.len() > 0 && a.last() == s.last()) by {
        if cfg.capitalize && s != remove_beginning_caps_spec(s) {
            let f = lowercase_of(s[0]);
            assert(a == f + s.drop_first());
            assert(a.last() == s.drop_first().last());
        }
    }
    if s.last() == '?' || s.last() == '.' {
        assert(!is_whitespace_char(a.last()));
        assert(trim_end_spec(a) == a);
    }
    let b = if cfg.end_period {
        remove_end_mark_spec(a, '.')
    } else {
        a
    };
    if s.last() == '?' {
        assert(b == a);
    } else if s.last() == '.' && !cfg.end_period {
        assert(b == a);
        assert(trim_end_spec(b) == b);
    }
}

/// The question-mark step drops a final `?` of a text that is more than
/// the mark (ignoring trailing whitespace), and only that.
pub proof fn lemma_question_step_drops_mark(s: Seq<char>)
    requires
        s.len() >= 2,
        s.last() == '?',
    ensures
        remove_end_mark_spec(s, '?') == s.drop_last(),
        remove_end_mark_spec(s, '.') == s,
{
    assert(trim_end_spec(s) == s);
}

/// With every step switched off, cleanup gives the text back unchanged.
pub proof fn lemma_cleanup_disabled_is_identity(s: Seq<char>, cfg: CleanupConfig)
    requires
        !cfg.capitalize,
        !cfg.end_period,
        !cfg.end_question,
    ensures
        apply_cleanup_spec(s, cfg) == s,
{
}

/// Removing an end mark only ever shortens the text, keeping a prefix.
pub proof fn lemma_remove_end_mark_prefix(s: Seq<char>, mark: char)
    ensures
        remove_end_mark_spec(s, mark).len() <= s.len(),
        remove_end_mark_spec(s, mark) == s.take(remove_end_mark_spec(s, mark).len() as int),
{
    lemma_trim_end_prefix(s);
    let t = trim_end_spec(s);
    if s.len() == 0 || t.len() == 0 {
        assert(s.take(s.len() as int) =~= s);
    } else if t.last() == mark && t.len() > 1 {
        assert(t.drop_last() =~= s.take(t.len() - 1));
    } else {
        assert(s.take(s.len() as int) =~= s);
    }
}

} // verus!
