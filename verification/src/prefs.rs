//! Small preferences kept as one-line files under `~/.cache/hush`: the
//! backend name, whether post-processing is on, and its model. Reading
//! and writing the files is the caller's work; the library names the
//! files and reads their text.

use vstd::prelude::*;

use crate::paths::{join_path, join_spec};
use crate::text::{push_str, trim, trim_spec};

verus! {

broadcast use vstd::string::group_string_axioms;

/// The post-processing model used when none is set.
pub const DEFAULT_POST_PROCESS_MODEL: &'static str = "qwen2.5:0.5b";

/// The backend used when neither the environment nor the file names one.
pub const DEFAULT_BACKEND: &'static str = "whisper";

/// The preferences directory under the home directory.
pub fn prefs_dir(home: &str) -> (r: String)
    ensures
        r@ == join_spec(home@, ".cache/hush"@),
{
    proof {
        reveal_strlit(".cache/hush");
    }
    join_path(home, ".cache/hush")
}

/// The file holding the backend name.
pub fn backend_path(home: &str) -> (r: String)
    ensures
        r@ == join_spec(join_spec(home@, ".cache/hush"@), "backend"@),
{
    let d = prefs_dir(home);
    proof {
        reveal_strlit("backend");
    }
    join_path(d.as_str(), "backend")
}

/// The file holding whether post-processing is on.
pub fn post_process_enabled_path(home: &str) -> (r: String)
    ensures
        r@ == join_spec(join_spec(home@, ".cache/hush"@), "post-process-enabled"@),
{
    let d = prefs_dir(home);
    proof {
        reveal_strlit("post-process-enabled");
    }
    join_path(d.as_str(), "post-process-enabled")
}

/// The file holding the post-processing model.
pub fn post_process_model_path(home: &str) -> (r: String)
    ensures
        r@ == join_spec(join_spec(home@, ".cache/hush"@), "post-process-model"@),
{
    let d = prefs_dir(home);
    proof {
        reveal_strlit("post-process-model");
    }
    join_path(d.as_str(), "post-process-model")
}

/// The view of an optional string slice.
pub open spec fn opt_view(s: Option<&str>) -> Option<Seq<char>> {
    match s {
        Some(t) => Some(t@),
        None => None,
    }
}

/// The active backend name: the environment override if set, else the
/// file's trimmed text if it could be read, else `"whisper"`.
pub fn backend_from(env: Option<&str>, file: Option<&str>) -> (r: String)
    ensures
        r@ == match env {
            Some(e) => e@,
            None => match file {
                Some(f) => trim_spec(f@),
                None => DEFAULT_BACKEND@,
            },
        },
{
    match env {
        Some(e) => {
            let mut s = String::new();
            push_str(&mut s, e);
            s
        },
        None => match file {
            Some(f) => trim(f),
            None => {
                let mut s = String::new();
                push_str(&mut s, DEFAULT_BACKEND);
                s
            },
        },
    }
}

/// Whether `c` is `lower` or its ASCII uppercase `upper`.
pub open spec fn either_case(c: char, lower: char, upper: char) -> bool {
    c == lower || c == upper
}

/// Whether `s` is `true` in any ASCII case.
pub open spec fn is_true_word(s: Seq<char>) -> bool {
    &&& s.len() == 4
    &&& either_case(s[0], 't', 'T')
    &&& either_case(s[1], 'r', 'R')
    &&& either_case(s[2], 'u', 'U')
    &&& either_case(s[3], 'e', 'E')
}

/// Whether post-processing is on, from the file's text: its trimmed text
/// is `true` in any ASCII case. A file that could not be read means off.
pub fn post_process_enabled_from(file: Option<&str>) -> (r: bool)
    ensures
        r == match file {
            Some(f) => is_true_word(trim_spec(f@)),
            None => false,
        },
{
    match file {
        Some(f) => {
            let t = trim(f);
            let cs = crate::text::chars_of(t.as_str());
            cs.len() == 4 && (cs[0] == 't' || cs[0] == 'T') && (cs[1] == 'r' || cs[1] == 'R') && (
            cs[2] == 'u' || cs[2] == 'U') && (cs[3] == 'e' || cs[3] == 'E')
        },
        None => false,
    }
}

/// The text written for the post-processing switch.
pub fn enabled_text(enabled: bool) -> (r: &'static str)
    ensures
        r@ == if enabled {
            "true"@
        } else {
            "false"@
        },
{
    if enabled {
        "true"
    } else {
        "false"
    }
}

/// The post-processing model from the file's text: its trimmed text,
/// unless blank or unreadable, when the default model is used.
pub fn post_process_model_from(file: Option<&str>) -> (r: String)
    ensures
        r@ == match file {
            Some(f) if trim_spec(f@).len() > 0 => trim_spec(f@),
            _ => DEFAULT_POST_PROCESS_MODEL@,
        },
{
    if let Some(f) = file {
        let t = trim(f);
        if !t.as_str().is_empty() {
            return t;
        }
    }
    let mut s = String::new();
    push_str(&mut s, DEFAULT_POST_PROCESS_MODEL);
    s
}

/// Writing a switch and reading it back gives the switch.
pub proof fn lemma_enabled_round_trip(enabled: bool, written: Seq<char>)
    requires
        written == if enabled {
            "true"@
        } else {
            "false"@
        },
    ensures
        is_true_word(trim_spec(written)) == enabled,
{
    reveal_strlit("true");
    reveal_strlit("false");
    assert(!crate::text::is_whitespace_char('t') && !crate::text::is_whitespace_char('e')
        && !crate::text::is_whitespace_char('f'));
    crate::text::lemma_trim_plain(written);
}

} // verus!
