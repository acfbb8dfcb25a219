//! The user's custom JavaScript post-processor.
//!
//! The library decides whether the parser runs, normalizes the script
//! (smart quotes and non-breaking spaces that text editors put in), builds
//! the program that the JavaScript engine evaluates, and turns what the
//! engine reported into the text to paste. Running the engine, with its
//! time limit, is the caller's work.

use vstd::prelude::*;

use crate::config::CustomParserConfig;
use crate::numbers::parse_bounded;
use crate::text::{chars_of, push_char, push_str, trim, trim_spec};

verus! {

broadcast use vstd::string::group_string_axioms;

/// The time limit of a parser run when none is configured.
pub const DEFAULT_TIMEOUT_MS: u64 = 5_000;

/// The lower-case hex digit of `d`, for `d < 16`.
pub open spec fn hex_digit_lower(d: int) -> char {
    if d < 10 {
        (d + 48) as char
    } else {
        (d + 87) as char
    }
}

/// How `serde_json` writes one char inside a string literal: quote and
/// backslash behind a backslash, the controls that have a short escape
/// (`\b \t \n \f \r`) by it, the other controls below U+0020 as
/// `\u00` and two lower-case hex digits, anything else as it is.
pub open spec fn json_escape_char(c: char) -> Seq<char> {
    let u = c as int;
    if c == '"' {
        seq!['\\', '"']
    } else if c == '\\' {
        seq!['\\', '\\']
    } else if u == 0x08 {
        seq!['\\', 'b']
    } else if u == 0x09 {
        seq!['\\', 't']
    } else if u == 0x0A {
        seq!['\\', 'n']
    } else if u == 0x0C {
        seq!['\\', 'f']
    } else if u == 0x0D {
        seq!['\\', 'r']
    } else if u < 0x20 {
        seq!['\\', 'u', '0', '0', hex_digit_lower(u / 16), hex_digit_lower(u % 16)]
    } else {
        seq![c]
    }
}

/// The chars of `s`, each escaped as `json_escape_char` says.
pub open spec fn json_escaped(s: Seq<char>) -> Seq<char>
    decreases s.len(),
{
    if s.len() == 0 {
        Seq::empty()
    } else {
        json_escaped(s.drop_last()) + json_escape_char(s.last())
    }
}

/// The JSON string literal that `serde_json` writes for a text: the
/// escaped text between double quotes.
pub open spec fn json_string_of(s: Seq<char>) -> Seq<char> {
    seq!['"'] + json_escaped(s) + seq!['"']
}

/// `serde_json::to_string` on a string slice: the JSON string literal of
/// `s`, quoted and escaped as `json_string_of` says (the escape table and
/// `write_char_escape` of its serializer). Serializing a string fails only
/// when writing fails, and the `Vec` that `to_string` writes into never
/// fails, so the error arm below is never taken.
#[verifier::external_body]
pub(crate) fn json_string_literal(s: &str) -> (r: String)
    ensures
        r@ == json_string_of(s@),
{
    serde_json::to_string(s).unwrap_or_default()
}

/// Whether the parser runs: it is switched on and its script is not blank.
pub open spec fn parser_active_spec(cfg: CustomParserConfig) -> bool {
    cfg.enabled && trim_spec(cfg.script@).len() > 0
}

/// Whether the parser runs for `cfg`.
pub fn parser_is_active(cfg: &CustomParserConfig) -> (r: bool)
    ensures
        r == parser_active_spec(*cfg),
{
    if !cfg.enabled {
        return false;
    }
    let t = trim(cfg.script.as_str());
    !t.as_str().is_empty()
}

/// A char with typographic quotes made straight and a non-breaking space
/// made plain.
pub open spec fn normalize_char(c: char) -> char {
    if c == '“' || c == '”' {
        '"'
    } else if c == '‘' || c == '’' {
        '\''
    } else if c == '\u{00A0}' {
        ' '
    } else {
        c
    }
}

/// A script with each char normalized.
pub open spec fn normalize_spec(s: Seq<char>) -> Seq<char> {
    s.map_values(|c: char| normalize_char(c))
}

/// Replaces typographic double and single quotes with straight ones and
/// non-breaking spaces with plain spaces.
pub fn normalize_script(script: &str) -> (r: String)
    ensures
        r@ == normalize_spec(script@),
{
    let cs = chars_of(script);
    let mut out = String::new();
    let mut i: usize = 0;
    while i < cs.len()
        invariant
            i <= cs@.len(),
            cs@ == script@,
            out@ == normalize_spec(script@).take(i as int),
        decreases cs@.len() - i,
    {
        let c = cs[i];
        let n = if c == '“' || c == '”' {
            '"'
        } else if c == '‘' || c == '’' {
            '\''
        } else if c == '\u{00A0}' {
            ' '
        } else {
            c
        };
        push_char(&mut out, n);
        i = i + 1;
        assert(out@ =~= normalize_spec(script@).take(i as int));
    }
    assert(normalize_spec(script@).take(cs@.len() as int) =~= normalize_spec(script@));
    out
}

/// The call of the user's function body on the input literal.
pub open spec fn source_spec(script: Seq<char>, input_literal: Seq<char>) -> Seq<char> {
    "(function(input) {\n"@ + script + "\n})("@ + input_literal + ");\n"@
}

/// The program that evaluates the user's script on the input and checks
/// its result: a number becomes its string, anything but a string throws.
pub open spec fn program_spec(script: Seq<char>, input_literal: Seq<char>) -> Seq<char> {
    "(() => {\n  const __result = "@ + source_spec(script, input_literal)
        + "\n  const __coerced = typeof __result === \"number\" ? String(__result) : __result;\n  if (typeof __coerced !== \"string\") {\n    throw new Error(\"custom parser must return string or number\");\n  }\n  return __coerced;\n})()"@
}

/// The program for `script` run on `input`: the normalized script as the
/// body of a function of `input`, called on the JSON literal of the input.
pub fn parser_program(script: &str, input: &str) -> (r: String)
    ensures
        r@ == program_spec(normalize_spec(script@), json_string_of(input@)),
{
    let literal = json_string_literal(input);
    let script = normalize_script(script);
    let mut p = String::new();
    push_str(&mut p, "(() => {\n  const __result = ");
    push_str(&mut p, "(function(input) {\n");
    push_str(&mut p, script.as_str());
    push_str(&mut p, "\n})(");
    push_str(&mut p, literal.as_str());
    push_str(&mut p, ");\n");
    push_str(
        &mut p,
        "\n  const __coerced = typeof __result === \"number\" ? String(__result) : __result;\n  if (typeof __coerced !== \"string\") {\n    throw new Error(\"custom parser must return string or number\");\n  }\n  return __coerced;\n})()",
    );
    assert(p@ =~= program_spec(script@, literal@));
    p
}

/// What to do with a transcript before it is pasted.
#[derive(Debug, Clone, PartialEq, Eq)]
pub enum ParserStep {
    /// The parser is off or has a blank script: paste the transcript.
    Disabled,
    /// Evaluate this program, under the time limit.
    Run(String),
}

/// The first half of a parser run on `input`: whether it runs, and the
/// program to evaluate. The program is built from the script and the
/// input alone, so two runs on the same input evaluate the same program.
pub fn apply(cfg: &CustomParserConfig, input: &str) -> (r: ParserStep)
    ensures
        !parser_active_spec(*cfg) ==> r == ParserStep::Disabled,
        parser_active_spec(*cfg) ==> (r matches ParserStep::Run(p) && p@ == program_spec(
            normalize_spec(cfg.script@),
            json_string_of(input@),
        )),
{
    if !parser_is_active(cfg) {
        return ParserStep::Disabled;
    }
    ParserStep::Run(parser_program(cfg.script.as_str(), input))
}

/// How an evaluation by the JavaScript engine ended.
#[derive(Debug, Clone, PartialEq, Eq)]
pub enum ParserRun {
    /// The program returned this text (a string, or a number as text).
    Finished(String),
    /// The program threw, or did not return a string or number.
    Threw(String),
    /// The time limit passed first.
    TimedOut,
    /// The worker went away without an answer.
    Disconnected,
}

/// The second half of a parser run: the text to paste in place of the
/// transcript, if the run gave one.
pub fn parser_output(run: ParserRun) -> (r: Option<String>)
    ensures
        match run {
            ParserRun::Finished(t) => r == Some(t),
            _ => r is None,
        },
{
    match run {
        ParserRun::Finished(t) => Some(t),
        _ => None,
    }
}

/// The time limit of a run, in milliseconds, from the setting's raw text:
/// a positive whole number is taken as it is; anything else, or no
/// setting, gives the default.
pub open spec fn timeout_spec(raw: Option<Seq<char>>) -> u64 {
    match raw {
        Some(t) => match crate::numbers::parse_unsigned(t, u64::MAX as int) {
            Some(v) if v > 0 => v as u64,
            _ => DEFAULT_TIMEOUT_MS,
        },
        None => DEFAULT_TIMEOUT_MS,
    }
}

/// The time limit of a run from the setting's raw text.
pub fn parse_timeout_ms(raw: Option<&str>) -> (r: u64)
    ensures
        r == timeout_spec(match raw {
            Some(t) => Some(t@),
            None => None,
        }),
{
    match raw {
        Some(t) => match parse_bounded(t, u64::MAX) {
            Some(v) => if v > 0 {
                v
            } else {
                DEFAULT_TIMEOUT_MS
            },
            None => DEFAULT_TIMEOUT_MS,
        },
        None => DEFAULT_TIMEOUT_MS,
    }
}

} // verus!
