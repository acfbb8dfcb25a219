//! Character-level text helpers shared by the rest of the library.
//!
//! Strings are reasoned about through their `Seq<char>` view. The short
//! Unicode sets that `char` reports (whitespace, control codes) are spelled
//! out; the long tables (case properties and mappings) are named. Everything
//! built on top of them (trimming, word splitting, replacing) is defined
//! here as a spec function and implemented against it.

use vstd::prelude::*;
use vstd::string::*;

verus! {

broadcast use vstd::string::group_string_axioms;

// ---------------------------------------------------------------------
// Unicode properties of `char` (named results of std functions)
// ---------------------------------------------------------------------

/// The chars beyond ASCII with the Unicode `White_Space` property (as
/// listed in the Unicode Character Database, `PropList.txt`): next line,
/// no-break space, Ogham space mark, the spaces U+2000 to U+200A, line and
/// paragraph separators, narrow no-break space, medium mathematical space
/// and ideographic space.
pub open spec fn is_non_ascii_whitespace(c: char) -> bool {
    let u = c as u32;
    ||| u == 0x85
    ||| u == 0xA0
    ||| u == 0x1680
    ||| 0x2000 <= u <= 0x200A
    ||| u == 0x2028
    ||| u == 0x2029
    ||| u == 0x202F
    ||| u == 0x205F
    ||| u == 0x3000
}

/// The ASCII whitespace chars of the Unicode `White_Space` property: tab,
/// line feed, vertical tab, form feed, carriage return and space.
pub open spec fn is_ascii_whitespace_char(c: char) -> bool {
    c == ' ' || ('\t' <= c && c <= '\r')
}

/// The Unicode `White_Space` property, as `char::is_whitespace` reports it.
pub open spec fn is_whitespace_char(c: char) -> bool {
    if (c as u32) < 128 {
        is_ascii_whitespace_char(c)
    } else {
        is_non_ascii_whitespace(c)
    }
}

/// The Unicode `Uppercase` property, as `char::is_uppercase` reports it.
pub uninterp spec fn is_uppercase_char(c: char) -> bool;

/// The Unicode `Lowercase` property, as `char::is_lowercase` reports it.
pub uninterp spec fn is_lowercase_char(c: char) -> bool;

/// The general category `Cc` (control codes), which Unicode fixes as
/// U+0000 to U+001F and U+007F to U+009F.
pub open spec fn is_control_char(c: char) -> bool {
    let u = c as u32;
    u <= 0x1F || (0x7F <= u && u <= 0x9F)
}

/// The chars that `char::to_lowercase` yields for `c`.
pub uninterp spec fn lowercase_of(c: char) -> Seq<char>;

/// The text that `str::to_uppercase` returns for `s`.
pub uninterp spec fn uppercase_of(s: Seq<char>) -> Seq<char>;

/// Whether `c` has the Unicode `White_Space` property (what
/// `char::is_whitespace` reports). Among ASCII chars these are tab, line
/// feed, vertical tab, form feed, carriage return and space; beyond ASCII,
/// the nineteen chars of `is_non_ascii_whitespace`.
pub fn char_is_whitespace(c: char) -> (r: bool)
    ensures
        r == is_whitespace_char(c),
{
    let u = c as u32;
    if u < 128 {
        u == 32 || (9 <= u && u <= 13)
    } else {
        u == 0x85 || u == 0xA0 || u == 0x1680 || (0x2000 <= u && u <= 0x200A) || u == 0x2028
            || u == 0x2029 || u == 0x202F || u == 0x205F || u == 0x3000
    }
}

/// `char::is_uppercase`: whether `c` has the Unicode `Uppercase` property.
#[verifier::external_body]
pub(crate) fn char_is_uppercase(c: char) -> (r: bool)
    ensures
        r == is_uppercase_char(c),
{
    c.is_uppercase()
}

/// `char::is_lowercase`: whether `c` has the Unicode `Lowercase` property.
#[verifier::external_body]
pub(crate) fn char_is_lowercase(c: char) -> (r: bool)
    ensures
        r == is_lowercase_char(c),
{
    c.is_lowercase()
}

/// Whether `c` is in the general category `Cc` (what `char::is_control`
/// reports): the code points U+0000 to U+001F and U+007F to U+009F.
pub fn char_is_control(c: char) -> (r: bool)
    ensures
        r == is_control_char(c),
{
    let u = c as u32;
    u <= 0x1F || (0x7F <= u && u <= 0x9F)
}

/// `char::to_lowercase`, collected into a vector of chars. The mapping
/// table is left to the name.
#[verifier::external_body]
pub(crate) fn char_to_lowercase(c: char) -> (r: Vec<char>)
    ensures
        r@ == lowercase_of(c),
{
    c.to_lowercase().collect()
}

/// `str::to_uppercase`. The mapping table is left to the name.
#[verifier::external_body]
pub(crate) fn str_to_uppercase(s: &str) -> (r: String)
    ensures
        r@ == uppercase_of(s@),
{
    s.to_uppercase()
}

/// `String::push`: appends one char at the end.
#[verifier::external_body]
pub(crate) fn push_char(s: &mut String, c: char)
    ensures
        final(s)@ == old(s)@.push(c),
{
    s.push(c)
}

// ---------------------------------------------------------------------
// Conversions between `str`, `String` and `Vec<char>`
// ---------------------------------------------------------------------

/// The chars of `s`, in order.
pub fn chars_of(s: &str) -> (r: Vec<char>)
    ensures
        r@ == s@,
{
    let mut out: Vec<char> = Vec::new();
    for c in it: s.chars()
        invariant
            out@ == it.seq().take(it.index() as int),
    {
        out.push(c);
    }
    out
}

/// A string holding the chars of `cs[from..to]`.
pub fn string_of_range(cs: &Vec<char>, from: usize, to: usize) -> (r: String)
    requires
        from <= to <= cs@.len(),
    ensures
        r@ == cs@.subrange(from as int, to as int),
{
    let mut out = String::new();
    let mut i = from;
    while i < to
        invariant
            from <= i <= to <= cs@.len(),
            out@ == cs@.subrange(from as int, i as int),
        decreases to - i,
    {
        push_char(&mut out, cs[i]);
        i += 1;
        assert(out@ =~= cs@.subrange(from as int, i as int));
    }
    out
}

/// A string holding the chars of `cs`.
pub fn string_of(cs: &Vec<char>) -> (r: String)
    ensures
        r@ == cs@,
{
    let r = string_of_range(cs, 0, cs.len());
    assert(cs@.subrange(0, cs@.len() as int) =~= cs@);
    r
}

/// Appends `cs` to `out`.
pub fn push_chars(out: &mut String, cs: &Vec<char>)
    ensures
        final(out)@ == old(out)@ + cs@,
{
    let mut i: usize = 0;
    while i < cs.len()
        invariant
            i <= cs@.len(),
            out@ == old(out)@ + cs@.take(i as int),
        decreases cs@.len() - i,
    {
        push_char(out, cs[i]);
        i += 1;
        assert(out@ =~= old(out)@ + cs@.take(i as int));
    }
    assert(cs@.take(cs@.len() as int) =~= cs@);
}

/// Appends `s` to `out`.
pub fn push_str(out: &mut String, s: &str)
    ensures
        final(out)@ == old(out)@ + s@,
{
    let cs = chars_of(s);
    push_chars(out, &cs);
}

/// Whether two strings hold the same chars.
pub fn str_eq(a: &str, b: &str) -> (r: bool)
    ensures
        r == (a@ == b@),
{
    let x = chars_of(a);
    let y = chars_of(b);
    if x.len() != y.len() {
        return false;
    }
    let mut i: usize = 0;
    while i < x.len()
        invariant
            x@.len() == y@.len(),
            i <= x@.len(),
            x@ == a@,
            y@ == b@,
            forall|j: int| 0 <= j < i ==> x@[j] == y@[j],
        decreases x@.len() - i,
    {
        if x[i] != y[i] {
            return false;
        }
        i += 1;
    }
    assert(x@ =~= y@);
    true
}

// ---------------------------------------------------------------------
// Trimming
// ---------------------------------------------------------------------

/// `s` without its trailing whitespace (what `str::trim_end` returns).
pub open spec fn trim_end_spec(s: Seq<char>) -> Seq<char>
    decreases s.len(),
{
    if s.len() > 0 && is_whitespace_char(s.last()) {
        trim_end_spec(s.drop_last())
    } else {
        s
    }
}

/// `s` without its leading whitespace (what `str::trim_start` returns).
pub open spec fn trim_start_spec(s: Seq<char>) -> Seq<char>
    decreases s.len(),
{
    if s.len() > 0 && is_whitespace_char(s[0]) {
        trim_start_spec(s.drop_first())
    } else {
        s
    }
}

/// `s` without leading and trailing whitespace (what `str::trim` returns).
pub open spec fn trim_spec(s: Seq<char>) -> Seq<char> {
    trim_start_spec(trim_end_spec(s))
}

/// The trimmed-at-the-end text is a prefix of the text.
pub proof fn lemma_trim_end_prefix(s: Seq<char>)
    ensures
        trim_end_spec(s).len() <= s.len(),
        trim_end_spec(s) == s.take(trim_end_spec(s).len() as int),
        trim_end_spec(s).len() > 0 ==> !is_whitespace_char(trim_end_spec(s).last()),
    decreases s.len(),
{
    if s.len() > 0 && is_whitespace_char(s.last()) {
        lemma_trim_end_prefix(s.drop_last());
        let t = trim_end_spec(s.drop_last());
        assert(s.drop_last().take(t.len() as int) =~= s.take(t.len() as int));
    } else {
        assert(s.take(s.len() as int) =~= s);
    }
}

/// The trimmed-at-the-start text is a suffix of the text.
pub proof fn lemma_trim_start_suffix(s: Seq<char>)
    ensures
        trim_start_spec(s).len() <= s.len(),
        trim_start_spec(s) == s.skip(s.len() - trim_start_spec(s).len()),
        trim_start_spec(s).len() > 0 ==> !is_whitespace_char(trim_start_spec(s)[0]),
    decreases s.len(),
{
    if s.len() > 0 && is_whitespace_char(s[0]) {
        lemma_trim_start_suffix(s.drop_first());
        let t = trim_start_spec(s.drop_first());
        assert(s.drop_first().skip(s.len() - 1 - t.len()) =~= s.skip(s.len() - t.len()));
    } else {
        assert(s.skip(0) =~= s);
    }
}

/// The length of `cs` once its trailing whitespace is removed.
pub fn trim_end_len(cs: &Vec<char>) -> (n: usize)
    ensures
        n <= cs@.len(),
        cs@.take(n as int) == trim_end_spec(cs@),
{
    let mut i = cs.len();
    assert(cs@.take(i as int) =~= cs@);
    while i > 0 && char_is_whitespace(cs[i - 1])
        invariant
            i <= cs@.len(),
            trim_end_spec(cs@.take(i as int)) == trim_end_spec(cs@),
        decreases i,
    {
        assert(cs@.take(i as int).drop_last() =~= cs@.take(i - 1));
        i -= 1;
    }
    i
}

/// The number of leading whitespace chars of `cs[from..]`.
pub fn trim_start_from(cs: &Vec<char>, from: usize) -> (n: usize)
    requires
        from <= cs@.len(),
    ensures
        from <= n <= cs@.len(),
        cs@.skip(n as int) == trim_start_spec(cs@.skip(from as int)),
{
    let mut i = from;
    while i < cs.len() && char_is_whitespace(cs[i])
        invariant
            from <= i <= cs@.len(),
            trim_start_spec(cs@.skip(i as int)) == trim_start_spec(cs@.skip(from as int)),
        decreases cs@.len() - i,
    {
        assert(cs@.skip(i as int).drop_first() =~= cs@.skip(i + 1));
        i += 1;
    }
    i
}

/// `str::trim`: `s` without leading and trailing whitespace.
pub fn trim(s: &str) -> (r: String)
    ensures
        r@ == trim_spec(s@),
{
    let cs = chars_of(s);
    let end = trim_end_len(&cs);
    let ghost t = cs@.take(end as int);
    let mut i: usize = 0;
    assert(t.skip(0) =~= t);
    while i < end && char_is_whitespace(cs[i])
        invariant
            i <= end <= cs@.len(),
            t == cs@.take(end as int),
            trim_start_spec(t.skip(i as int)) == trim_start_spec(t),
        decreases end - i,
    {
        assert(t.skip(i as int).drop_first() =~= t.skip(i + 1));
        i += 1;
    }
    assert(t.skip(i as int) =~= cs@.subrange(i as int, end as int));
    string_of_range(&cs, i, end)
}

/// `str::trim_end`: `s` without trailing whitespace.
pub fn trim_end(s: &str) -> (r: String)
    ensures
        r@ == trim_end_spec(s@),
{
    let cs = chars_of(s);
    let end = trim_end_len(&cs);
    assert(cs@.subrange(0, end as int) =~= cs@.take(end as int));
    string_of_range(&cs, 0, end)
}

// ---------------------------------------------------------------------
// Words
// ---------------------------------------------------------------------

/// The run of non-whitespace chars at the start of `s`.
pub open spec fn leading_word(s: Seq<char>) -> Seq<char>
    decreases s.len(),
{
    if s.len() == 0 || is_whitespace_char(s[0]) {
        Seq::empty()
    } else {
        seq![s[0]] + leading_word(s.drop_first())
    }
}

/// What `s.split_whitespace().next()` returns.
pub open spec fn first_word(s: Seq<char>) -> Option<Seq<char>> {
    let t = trim_start_spec(s);
    if t.len() == 0 {
        None
    } else {
        Some(leading_word(t))
    }
}

/// The leading word is a prefix made of non-whitespace chars.
pub proof fn lemma_leading_word(s: Seq<char>)
    ensures
        leading_word(s).len() <= s.len(),
        leading_word(s) == s.take(leading_word(s).len() as int),
        leading_word(s).len() < s.len() ==> is_whitespace_char(s[leading_word(s).len() as int]),
        forall|i: int| 0 <= i < leading_word(s).len() ==> !is_whitespace_char(#[trigger] s[i]),
    decreases s.len(),
{
    if s.len() == 0 || is_whitespace_char(s[0]) {
    } else {
        lemma_leading_word(s.drop_first());
        let w = leading_word(s.drop_first());
        assert(seq![s[0]] + w =~= s.take(w.len() + 1int));
        assert forall|i: int| 0 <= i < leading_word(s).len() implies !is_whitespace_char(
            #[trigger] s[i],
        ) by {
            if i > 0 {
                assert(s[i] == s.drop_first()[i - 1]);
            }
        }
    }
}

/// Length of the run of non-whitespace chars of `cs` starting at `from`.
pub fn leading_word_end(cs: &Vec<char>, from: usize) -> (n: usize)
    requires
        from <= cs@.len(),
    ensures
        from <= n <= cs@.len(),
        cs@.subrange(from as int, n as int) == leading_word(cs@.skip(from as int)),
{
    let mut i = from;
    while i < cs.len() && !char_is_whitespace(cs[i])
        invariant
            from <= i <= cs@.len(),
            cs@.subrange(from as int, i as int) + leading_word(cs@.skip(i as int)) == leading_word(
                cs@.skip(from as int),
            ),
        decreases cs@.len() - i,
    {
        assert(cs@.skip(i as int).drop_first() =~= cs@.skip(i + 1));
        assert(cs@.skip(i as int)[0] == cs@[i as int]);
        assert(cs@.subrange(from as int, i + 1) =~= cs@.subrange(from as int, i as int) + seq![
            cs@[i as int],
        ]);
        i += 1;
    }
    assert(leading_word(cs@.skip(i as int)) =~= Seq::<char>::empty());
    assert(cs@.subrange(from as int, i as int) + Seq::<char>::empty() =~= cs@.subrange(
        from as int,
        i as int,
    ));
    i
}

// ---------------------------------------------------------------------
// Replacing
// ---------------------------------------------------------------------

/// Whether `pat` occurs in `s` at position `i`.
pub open spec fn occurs_at(s: Seq<char>, pat: Seq<char>, i: int) -> bool {
    0 <= i && i + pat.len() <= s.len() && s.subrange(i, i + pat.len()) == pat
}

/// What `str::replace(s, pat, rep)` returns: every non-overlapping
/// occurrence of `pat`, scanning left to right, replaced by `rep`. The
/// empty pattern occurs before every char and at the end, so `rep` is put
/// there.
pub open spec fn replace_spec(s: Seq<char>, pat: Seq<char>, rep: Seq<char>) -> Seq<char>
    decreases s.len(),
{
    if pat.len() == 0 {
        if s.len() == 0 {
            rep
        } else {
            rep + seq![s[0]] + replace_spec(s.skip(1), pat, rep)
        }
    } else if s.len() == 0 {
        s
    } else if occurs_at(s, pat, 0) {
        rep + replace_spec(s.skip(pat.len() as int), pat, rep)
    } else {
        seq![s[0]] + replace_spec(s.skip(1), pat, rep)
    }
}

/// Whether `pat` occurs in `cs` at position `i`.
fn occurs_at_exec(cs: &Vec<char>, pat: &Vec<char>, i: usize) -> (r: bool)
    requires
        i <= cs@.len(),
    ensures
        r == occurs_at(cs@, pat@, i as int),
{
    let n = cs.len();
    if pat.len() > n - i {
        return false;
    }
    let mut k: usize = 0;
    while k < pat.len()
        invariant
            n == cs@.len(),
            i <= cs@.len(),
            i + pat@.len() <= cs@.len(),
            k <= pat@.len(),
            forall|j: int| 0 <= j < k ==> cs@[i + j] == pat@[j],
        decreases pat@.len() - k,
    {
        if cs[i + k] != pat[k] {
            assert(cs@.subrange(i as int, i + pat@.len())[k as int] != pat@[k as int]);
            return false;
        }
        k += 1;
    }
    assert(cs@.subrange(i as int, i + pat@.len()) =~= pat@);
    true
}

/// `replace` for the empty pattern: `rep` before every char and at the end.
fn replace_empty_pattern(cs: &Vec<char>, rs: &Vec<char>, Ghost(ps): Ghost<Seq<char>>) -> (r: String)
    requires
        ps.len() == 0,
    ensures
        r@ == replace_spec(cs@, ps, rs@),
{
    let mut out = String::new();
    let mut i: usize = 0;
    assert(cs@.skip(0) =~= cs@);
    assert(out@ + replace_spec(cs@, ps, rs@) =~= replace_spec(cs@, ps, rs@));
    while i < cs.len()
        invariant
            i <= cs@.len(),
            ps.len() == 0,
            out@ + replace_spec(cs@.skip(i as int), ps, rs@) == replace_spec(cs@, ps, rs@),
        decreases cs@.len() - i,
    {
        let ghost rest = cs@.skip(i as int);
        assert(rest.skip(1) =~= cs@.skip(i + 1));
        assert(rest[0] == cs@[i as int]);
        let ghost before = out@;
        push_chars(&mut out, rs);
        push_char(&mut out, cs[i]);
        assert(out@ + replace_spec(cs@.skip(i + 1), ps, rs@) =~= before + (rs@ + seq![cs@[i as int]]
            + replace_spec(cs@.skip(i + 1), ps, rs@)));
        i += 1;
    }
    assert(cs@.skip(i as int) =~= Seq::<char>::empty());
    push_chars(&mut out, rs);
    out
}

/// `str::replace`.
pub fn replace(s: &str, pat: &str, rep: &str) -> (r: String)
    ensures
        r@ == replace_spec(s@, pat@, rep@),
{
    let cs = chars_of(s);
    let ps = chars_of(pat);
    let rs = chars_of(rep);
    if ps.len() == 0 {
        return replace_empty_pattern(&cs, &rs, Ghost(ps@));
    }
    let mut out = String::new();
    let mut i: usize = 0;
    assert(cs@.skip(0) =~= cs@);
    assert(out@ + replace_spec(cs@, ps@, rs@) =~= replace_spec(cs@, ps@, rs@));
    while i < cs.len()
        invariant
            i <= cs@.len(),
            cs@ == s@,
            ps@ == pat@,
            rs@ == rep@,
            ps@.len() > 0,
            out@ + replace_spec(cs@.skip(i as int), ps@, rs@) == replace_spec(cs@, ps@, rs@),
        decreases cs@.len() - i,
    {
        let ghost rest = cs@.skip(i as int);
        if occurs_at_exec(&cs, &ps, i) {
            assert(rest.subrange(0, ps@.len() as int) =~= cs@.subrange(
                i as int,
                i + ps@.len(),
            ));
            assert(occurs_at(rest, ps@, 0));
            assert(rest.skip(ps@.len() as int) =~= cs@.skip(i + ps@.len()));
            let ghost before = out@;
            push_chars(&mut out, &rs);
            assert(out@ + replace_spec(cs@.skip(i + ps@.len()), ps@, rs@) =~= before + (rs@
                + replace_spec(cs@.skip(i + ps@.len()), ps@, rs@)));
            i += ps.len();
        } else {
            proof {
                if occurs_at(rest, ps@, 0) {
                    assert(rest.subrange(0, ps@.len() as int) =~= cs@.subrange(
                        i as int,
                        i + ps@.len(),
                    ));
                }
            }
            assert(rest.skip(1) =~= cs@.skip(i + 1));
            assert(rest[0] == cs@[i as int]);
            let ghost before = out@;
            push_char(&mut out, cs[i]);
            assert(out@ + replace_spec(cs@.skip(i + 1), ps@, rs@) =~= before + (seq![cs@[i as int]]
                + replace_spec(cs@.skip(i + 1), ps@, rs@)));
            i += 1;
        }
    }
    assert(cs@.skip(i as int) =~= Seq::<char>::empty());
    assert(out@ + Seq::<char>::empty() =~= out@);
    out
}


/// `cs` without leading and trailing whitespace.
pub fn trim_chars(cs: &Vec<char>) -> (r: Vec<char>)
    ensures
        r@ == trim_spec(cs@),
{
    let end = trim_end_len(cs);
    let ghost t = cs@.take(end as int);
    let mut i: usize = 0;
    assert(t.skip(0) =~= t);
    while i < end && char_is_whitespace(cs[i])
        invariant
            i <= end <= cs@.len(),
            t == cs@.take(end as int),
            trim_start_spec(t.skip(i as int)) == trim_start_spec(t),
        decreases end - i,
    {
        assert(t.skip(i as int).drop_first() =~= t.skip(i + 1));
        i += 1;
    }
    assert(t.skip(i as int) =~= cs@.subrange(i as int, end as int));
    slice_chars(cs, i, end)
}

/// The chars `cs[from..to]`.
pub fn slice_chars(cs: &Vec<char>, from: usize, to: usize) -> (r: Vec<char>)
    requires
        from <= to <= cs@.len(),
    ensures
        r@ == cs@.subrange(from as int, to as int),
{
    let mut out: Vec<char> = Vec::new();
    let mut i = from;
    while i < to
        invariant
            from <= i <= to <= cs@.len(),
            out@ == cs@.subrange(from as int, i as int),
        decreases to - i,
    {
        out.push(cs[i]);
        i += 1;
        assert(out@ =~= cs@.subrange(from as int, i as int));
    }
    out
}

// ---------------------------------------------------------------------
// Joining and splitting
// ---------------------------------------------------------------------

/// The parts laid end to end with `sep` between neighbours (what
/// `[String]::join` returns).
pub open spec fn join_spec(parts: Seq<Seq<char>>, sep: Seq<char>) -> Seq<char>
    decreases parts.len(),
{
    if parts.len() == 0 {
        Seq::empty()
    } else if parts.len() == 1 {
        parts[0]
    } else {
        join_spec(parts.drop_last(), sep) + sep + parts.last()
    }
}

/// The views of a vector of strings.
pub open spec fn views(v: Seq<String>) -> Seq<Seq<char>> {
    v.map_values(|s: String| s@)
}

/// `[String]::join`: the parts with `sep` between neighbours.
pub fn join(parts: &Vec<String>, sep: &str) -> (r: String)
    ensures
        r@ == join_spec(views(parts@), sep@),
{
    let mut out = String::new();
    let mut i: usize = 0;
    while i < parts.len()
        invariant
            i <= parts@.len(),
            out@ == join_spec(views(parts@).take(i as int), sep@),
        decreases parts@.len() - i,
    {
        let ghost before = views(parts@).take(i as int);
        if i > 0 {
            push_str(&mut out, sep);
        }
        push_str(&mut out, parts[i].as_str());
        i += 1;
        let ghost after = views(parts@).take(i as int);
        assert(after.drop_last() =~= before);
        assert(after.last() == parts@[i - 1]@);
        if i == 1 {
            assert(out@ =~= after[0]);
        }
    }
    assert(views(parts@).take(parts@.len() as int) =~= views(parts@));
    out
}

/// The pieces of `s` between occurrences of `sep` (what `str::split`
/// with a char pattern yields): always at least one piece.
pub open spec fn split_spec(s: Seq<char>, sep: char) -> Seq<Seq<char>>
    decreases s.len(),
{
    if s.len() == 0 {
        seq![Seq::empty()]
    } else if s[0] == sep {
        seq![Seq::empty()] + split_spec(s.drop_first(), sep)
    } else {
        let r = split_spec(s.drop_first(), sep);
        r.update(0, seq![s[0]] + r[0])
    }
}

proof fn lemma_split_nonempty(s: Seq<char>, sep: char)
    ensures
        split_spec(s, sep).len() > 0,
    decreases s.len(),
{
    if s.len() > 0 {
        lemma_split_nonempty(s.drop_first(), sep);
    }
}

/// `str::split` with a char pattern, each piece as a vector of chars.
pub fn split_chars(cs: &Vec<char>, sep: char) -> (r: Vec<Vec<char>>)
    ensures
        r@.map_values(|p: Vec<char>| p@) == split_spec(cs@, sep),
{
    let mut done: Vec<Vec<char>> = Vec::new();
    let mut cur: Vec<char> = Vec::new();
    let mut i: usize = 0;
    proof {
        lemma_split_nonempty(cs@, sep);
        assert(cs@.skip(0) =~= cs@);
        assert(split_spec(cs@, sep) =~= done@.map_values(|p: Vec<char>| p@) + seq![
            cur@ + split_spec(cs@.skip(0), sep)[0],
        ] + split_spec(cs@.skip(0), sep).drop_first());
    }
    while i < cs.len()
        invariant
            i <= cs@.len(),
            split_spec(cs@, sep) == done@.map_values(|p: Vec<char>| p@) + seq![
                cur@ + split_spec(cs@.skip(i as int), sep)[0],
            ] + split_spec(cs@.skip(i as int), sep).drop_first(),
        decreases cs@.len() - i,
    {
        let ghost rest = cs@.skip(i as int);
        let ghost r = split_spec(cs@.skip(i + 1), sep);
        proof {
            lemma_split_nonempty(cs@.skip(i + 1), sep);
            assert(rest.drop_first() =~= cs@.skip(i + 1));
            assert(rest[0] == cs@[i as int]);
        }
        let ghost old_done = done@.map_values(|p: Vec<char>| p@);
        let ghost old_cur = cur@;
        if cs[i] == sep {
            let finished = cur;
            done.push(finished);
            cur = Vec::new();
            proof {
                assert(split_spec(rest, sep) == seq![Seq::<char>::empty()] + r);
                assert(done@.map_values(|p: Vec<char>| p@) =~= old_done.push(old_cur));
                assert(split_spec(cs@, sep) =~= done@.map_values(|p: Vec<char>| p@) + seq![
                    cur@ + r[0],
                ] + r.drop_first());
            }
        } else {
            cur.push(cs[i]);
            proof {
                assert(split_spec(rest, sep) == r.update(0, seq![cs@[i as int]] + r[0]));
                assert(split_spec(rest, sep)[0] == seq![cs@[i as int]] + r[0]);
                assert(split_spec(rest, sep).drop_first() =~= r.drop_first());
                assert(old_cur + (seq![cs@[i as int]] + r[0]) =~= cur@ + r[0]);
                assert(split_spec(cs@, sep) =~= done@.map_values(|p: Vec<char>| p@) + seq![
                    cur@ + r[0],
                ] + r.drop_first());
            }
        }
        i += 1;
    }
    let ghost final_done = done@.map_values(|p: Vec<char>| p@);
    let ghost last = cur@;
    done.push(cur);
    proof {
        assert(cs@.skip(i as int) =~= Seq::<char>::empty());
        assert(split_spec(Seq::<char>::empty(), sep) =~= seq![Seq::<char>::empty()]);
        assert(done@.map_values(|p: Vec<char>| p@) =~= final_done.push(last));
        assert(last + Seq::<char>::empty() =~= last);
        assert(split_spec(cs@, sep) =~= done@.map_values(|p: Vec<char>| p@));
    }
    done
}

/// Splitting at a separator between two texts splits each side.
pub proof fn lemma_split_concat(a: Seq<char>, b: Seq<char>, sep: char)
    ensures
        split_spec(a + seq![sep] + b, sep) == split_spec(a, sep) + split_spec(b, sep),
    decreases a.len(),
{
    if a.len() == 0 {
        assert(a + seq![sep] + b =~= seq![sep] + b);
        assert((seq![sep] + b).drop_first() =~= b);
        assert(split_spec(a, sep) =~= seq![Seq::<char>::empty()]);
    } else {
        let t = a + seq![sep] + b;
        assert(t.drop_first() =~= a.drop_first() + seq![sep] + b);
        assert(t[0] == a[0]);
        lemma_split_concat(a.drop_first(), b, sep);
        lemma_split_nonempty(a.drop_first(), sep);
        if a[0] == sep {
            assert(split_spec(t, sep) =~= split_spec(a, sep) + split_spec(b, sep));
        } else {
            let ra = split_spec(a.drop_first(), sep);
            let rb = split_spec(b, sep);
            assert((ra + rb).update(0, seq![a[0]] + (ra + rb)[0]) =~= ra.update(
                0,
                seq![a[0]] + ra[0],
            ) + rb);
        }
    }
}

/// A text without the separator is one piece.
pub proof fn lemma_split_no_sep(p: Seq<char>, sep: char)
    requires
        !p.contains(sep),
    ensures
        split_spec(p, sep) == seq![p],
    decreases p.len(),
{
    if p.len() == 0 {
        assert(p =~= Seq::<char>::empty());
    } else {
        assert(p[0] != sep) by {
            if p[0] == sep {
                assert(p.contains(sep));
            }
        }
        assert(!p.drop_first().contains(sep)) by {
            if p.drop_first().contains(sep) {
                let w = choose|w: int| 0 <= w < p.drop_first().len() && #[trigger] p.drop_first()[w] == sep;
                assert(p[w + 1] == sep);
            }
        }
        lemma_split_no_sep(p.drop_first(), sep);
        assert(seq![p[0]] + p.drop_first() =~= p);
        assert(seq![p.drop_first()].update(0, seq![p[0]] + p.drop_first()) =~= seq![p]);
    }
}

/// Splitting joined parts at their one-char separator gives the parts back,
/// when no part holds the separator.
pub proof fn lemma_split_join(parts: Seq<Seq<char>>, sep: char)
    requires
        parts.len() > 0,
        forall|i: int| 0 <= i < parts.len() ==> !(#[trigger] parts[i]).contains(sep),
    ensures
        split_spec(join_spec(parts, seq![sep]), sep) == parts,
    decreases parts.len(),
{
    if parts.len() == 1 {
        lemma_split_no_sep(parts[0], sep);
        assert(seq![parts[0]] =~= parts);
    } else {
        let init = parts.drop_last();
        assert forall|i: int| 0 <= i < init.len() implies !(#[trigger] init[i]).contains(sep) by {
            assert(init[i] == parts[i]);
        }
        lemma_split_join(init, sep);
        lemma_split_no_sep(parts.last(), sep);
        lemma_split_concat(join_spec(init, seq![sep]), parts.last(), sep);
        assert(init + seq![parts.last()] =~= parts);
    }
}

/// A text that neither starts nor ends with whitespace is its own trim.
pub proof fn lemma_trim_plain(s: Seq<char>)
    requires
        s.len() > 0,
        !is_whitespace_char(s[0]),
        !is_whitespace_char(s.last()),
    ensures
        trim_spec(s) == s,
{
}

/// The text of `s` before the first `c` (all of it when there is none).
pub open spec fn before_char(s: Seq<char>, c: char) -> Seq<char>
    decreases s.len(),
{
    if s.len() == 0 || s[0] == c {
        Seq::empty()
    } else {
        seq![s[0]] + before_char(s.drop_first(), c)
    }
}

/// The text of `s` after the first `c`, when there is one.
pub open spec fn after_char(s: Seq<char>, c: char) -> Option<Seq<char>>
    decreases s.len(),
{
    if s.len() == 0 {
        None
    } else if s[0] == c {
        Some(s.drop_first())
    } else {
        after_char(s.drop_first(), c)
    }
}

/// The position of the first `c` in `cs[from..]`, or `cs.len()`; the text
/// before it is `before_char`, and the text after it is `after_char`.
pub fn find_char_from(cs: &Vec<char>, from: usize, c: char) -> (n: usize)
    requires
        from <= cs@.len(),
    ensures
        from <= n <= cs@.len(),
        cs@.subrange(from as int, n as int) == before_char(cs@.skip(from as int), c),
        n < cs@.len() ==> cs@[n as int] == c && after_char(cs@.skip(from as int), c) == Some(
            cs@.skip(n + 1),
        ),
        n == cs@.len() ==> after_char(cs@.skip(from as int), c) is None,
{
    let mut i = from;
    assert(cs@.subrange(from as int, from as int) + before_char(cs@.skip(from as int), c)
        =~= before_char(cs@.skip(from as int), c));
    while i < cs.len() && cs[i] != c
        invariant
            from <= i <= cs@.len(),
            cs@.subrange(from as int, i as int) + before_char(cs@.skip(i as int), c)
                == before_char(cs@.skip(from as int), c),
            after_char(cs@.skip(i as int), c) == after_char(cs@.skip(from as int), c),
        decreases cs@.len() - i,
    {
        assert(cs@.skip(i as int).drop_first() =~= cs@.skip(i + 1));
        assert(cs@.skip(i as int)[0] == cs@[i as int]);
        assert(cs@.subrange(from as int, i + 1) =~= cs@.subrange(from as int, i as int) + seq![
            cs@[i as int],
        ]);
        i += 1;
    }
    if i < cs.len() {
        assert(cs@.skip(i as int)[0] == cs@[i as int]);
        assert(cs@.skip(i as int).drop_first() =~= cs@.skip(i + 1));
    }
    assert(before_char(cs@.skip(i as int), c) =~= Seq::<char>::empty());
    assert(cs@.subrange(from as int, i as int) + Seq::<char>::empty() =~= cs@.subrange(
        from as int,
        i as int,
    ));
    i
}

} // verus!
