//! The decisions of the settings window: the custom-parser editor's
//! state (a web view that reports its script and takes scripts to show),
//! the labels of the shortcut row, and which editing keys the window
//! handles itself. Building and drawing the window is the caller's work.

use vstd::prelude::*;

use crate::config::{pretty_spec, CustomParserConfig, Shortcut};
use crate::custom_parser::{json_string_literal, json_string_of};
use crate::shortcut::FLAG_COMMAND;
use crate::shortcut::FLAG_SHIFT;
use crate::text::{push_str, replace, replace_spec, str_eq};

verus! {

broadcast use vstd::string::group_string_axioms;

/// The name under which the editor page posts its messages.
pub const PARSER_MESSAGE_HANDLER_NAME: &'static str = "hushParser";

/// The marker in the editor page where its style sheet goes.
pub const CSS_MARKER: &'static str = "/*__HUSH_CSS__*/";

/// The script the editor's "Default" button puts in: trim the input,
/// drop a final period or question mark, and lowercase the first letter
/// unless the text starts with "I ".
pub const PARSER_DEFAULT_SCRIPT: &'static str = "  const s = input.trim().replace(/[.?]+$/, \"\");\n  if (!s) return s;\n  if (s.startsWith(\"I \")) return s;\n  return `${s[0].toLowerCase()}${s.slice(1)}`;";

/// The modifier bits that do not depend on the device.
pub const DEVICE_INDEPENDENT_FLAGS: u64 = 0xffff_0000;

/// The editor page with its style sheet put in at the marker.
pub fn parser_editor_html(template: &str, css: &str) -> (r: String)
    ensures
        r@ == replace_spec(template@, CSS_MARKER@, css@),
{
    proof {
        reveal_strlit("/*__HUSH_CSS__*/");
    }
    replace(template, CSS_MARKER, css)
}

/// The type and script of a message the editor page posts.
pub uninterp spec fn editor_message_of(payload: Seq<char>) -> Option<(Option<Seq<char>>, Option<Seq<char>>)>;

/// The view of an optional string.
pub open spec fn opt_view(s: Option<String>) -> Option<Seq<char>> {
    match s {
        Some(t) => Some(t@),
        None => None,
    }
}

/// `serde_json::from_str` into a JSON value, then its `"type"` and
/// `"script"` members where they are strings; `None` when the payload is
/// not JSON.
#[verifier::external_body]
fn parse_editor_message(payload: &str) -> (r: Option<(Option<String>, Option<String>)>)
    ensures
        msg_view(r) == editor_message_of(payload@),
{
    let value = serde_json::from_str::<serde_json::Value>(payload).ok()?;
    let kind = value.get("type").and_then(|v| v.as_str()).map(|s| s.to_string());
    let script = value.get("script").and_then(|v| v.as_str()).map(|s| s.to_string());
    Some((kind, script))
}

/// The abstract state of the parser editor.
pub struct EditorView {
    /// Whether the page has said it is ready.
    pub ready: bool,
    /// A script to show once the page is ready.
    pub pending: Option<Seq<char>>,
    /// The script as the page has it.
    pub current: Seq<char>,
    /// The saved script.
    pub snapshot: Seq<char>,
    /// The saved on/off switch.
    pub enabled_snapshot: bool,
}

/// The parser editor of the settings window.
#[derive(Debug)]
pub struct ParserEditor {
    ready: bool,
    pending_script: Option<String>,
    current_script: String,
    script_snapshot: String,
    enabled_snapshot: bool,
}

impl View for ParserEditor {
    type V = EditorView;

    closed spec fn view(&self) -> EditorView {
        EditorView {
            ready: self.ready,
            pending: opt_view(self.pending_script),
            current: self.current_script@,
            snapshot: self.script_snapshot@,
            enabled_snapshot: self.enabled_snapshot,
        }
    }
}

/// The script that shows `script` in a ready page.
pub open spec fn set_script_js_spec(script: Seq<char>) -> Seq<char> {
    "if (window.hushEditor) { window.hushEditor.setScript("@ + json_string_of(script) + "); }"@
}

/// What showing `script` does: it becomes the current script; before
/// the page is ready it waits as the pending script, afterwards the
/// script to run in the page is returned.
pub open spec fn set_script_spec(e: EditorView, script: Seq<char>) -> EditorView {
    if e.ready {
        EditorView { current: script, ..e }
    } else {
        EditorView { current: script, pending: Some(script), ..e }
    }
}

impl ParserEditor {
    /// An editor whose page is not ready yet, with nothing saved.
    pub fn new() -> (r: ParserEditor)
        ensures
            r@ == (EditorView {
                ready: false,
                pending: None,
                current: Seq::empty(),
                snapshot: Seq::empty(),
                enabled_snapshot: false,
            }),
    {
        ParserEditor {
            ready: false,
            pending_script: None,
            current_script: String::new(),
            script_snapshot: String::new(),
            enabled_snapshot: false,
        }
    }

    /// The script as the page has it.
    pub fn current_script(&self) -> (r: &str)
        ensures
            r@ == self@.current,
    {
        self.current_script.as_str()
    }

    /// The saved script.
    pub fn script_snapshot(&self) -> (r: &str)
        ensures
            r@ == self@.snapshot,
    {
        self.script_snapshot.as_str()
    }

    /// The saved on/off switch.
    pub fn enabled_snapshot(&self) -> (r: bool)
        ensures
            r == self@.enabled_snapshot,
    {
        self.enabled_snapshot
    }

    /// Whether the page is ready.
    pub fn is_ready(&self) -> (r: bool)
        ensures
            r == self@.ready,
    {
        self.ready
    }

    /// Records the saved parser settings.
    pub fn sync_parser_snapshot(&mut self, cfg: &CustomParserConfig)
        ensures
            final(self)@ == (EditorView {
                snapshot: cfg.script@,
                enabled_snapshot: cfg.enabled,
                ..old(self)@
            }),
    {
        self.script_snapshot = cfg.script.clone();
        self.enabled_snapshot = cfg.enabled;
    }

    /// Whether the editor differs from what is saved, so that the Apply
    /// and Reset buttons are enabled.
    pub fn is_dirty(&self, current_enabled: bool) -> (r: bool)
        ensures
            r == (self@.current != self@.snapshot || current_enabled != self@.enabled_snapshot),
    {
        !str_eq(self.current_script.as_str(), self.script_snapshot.as_str()) || current_enabled
            != self.enabled_snapshot
    }

    /// Shows `script` in the editor (see `set_script_spec`); returns the
    /// script to run in the page, if the page is ready.
    pub fn set_script(&mut self, script: &str) -> (js: Option<String>)
        ensures
            final(self)@ == set_script_spec(old(self)@, script@),
            !old(self)@.ready ==> js is None,
            old(self)@.ready ==> (js matches Some(j) && j@ == set_script_js_spec(script@)),
    {
        let mut cur = String::new();
        push_str(&mut cur, script);
        self.current_script = cur;
        if !self.ready {
            let mut p = String::new();
            push_str(&mut p, script);
            self.pending_script = Some(p);
            return None;
        }
        let lit = json_string_literal(script);
        let mut js = String::new();
        push_str(&mut js, "if (window.hushEditor) { window.hushEditor.setScript(");
        push_str(&mut js, lit.as_str());
        push_str(&mut js, "); }");
        Some(js)
    }

    /// Handles a message posted by the page: parses it as JSON and acts on
    /// its type and script (see `apply_message`). Returns the script to run
    /// in the page, if any.
    pub fn handle_message(&mut self, payload: &str) -> (js: Option<String>)
        ensures
            message_outcome(old(self)@, editor_message_of(payload@), final(self)@, js),
    {
        let msg = parse_editor_message(payload);
        self.apply_message(msg)
    }

    /// Acts on a parsed message (`None` when the payload was not JSON; the
    /// type and script where they were strings). `ready` marks the page
    /// ready and then shows the pending script, if any, or else takes the
    /// page's script; `changed` takes the page's script; anything else is
    /// ignored. Returns the script to run in the page, if any.
    pub fn apply_message(&mut self, msg: Option<(Option<String>, Option<String>)>) -> (js: Option<
        String,
    >)
        ensures
            message_outcome(old(self)@, msg_view(msg), final(self)@, js),
    {
        let (kind, script) = match msg {
            Some(m) => m,
            None => return None,
        };
        let kind = match kind {
            Some(k) => k,
            None => return None,
        };
        if str_eq(kind.as_str(), "ready") {
            self.ready = true;
            let pending = self.pending_script.take();
            match pending {
                Some(p) => {
                    return self.set_script(p.as_str());
                },
                None => {
                    if let Some(s) = script {
                        self.current_script = s;
                    }
                    return None;
                },
            }
        }
        if str_eq(kind.as_str(), "changed") {
            if let Some(s) = script {
                self.current_script = s;
            }
        }
        None
    }
}

/// The view of a parsed editor message.
pub open spec fn msg_view(m: Option<(Option<String>, Option<String>)>) -> Option<
    (Option<Seq<char>>, Option<Seq<char>>),
> {
    match m {
        Some((t, s)) => Some((opt_view(t), opt_view(s))),
        None => None,
    }
}

/// What a message (its type and script) does to the editor, and the
/// script to run in the page that it returns.
pub open spec fn message_outcome(
    old_e: EditorView,
    msg: Option<(Option<Seq<char>>, Option<Seq<char>>)>,
    new_e: EditorView,
    js: Option<String>,
) -> bool {
    match msg {
        Some((Some(t), s)) if t == "ready"@ => {
            &&& new_e.ready
            &&& match old_e.pending {
                Some(p) => new_e == (EditorView {
                    ready: true,
                    pending: None,
                    current: p,
                    ..old_e
                }) && (js matches Some(j) && j@ == set_script_js_spec(p)),
                None => js is None && new_e == (EditorView {
                    ready: true,
                    current: match s {
                        Some(x) => x,
                        None => old_e.current,
                    },
                    ..old_e
                }),
            }
        },
        Some((Some(t), s)) if t == "changed"@ => js is None && new_e == (EditorView {
            current: match s {
                Some(x) => x,
                None => old_e.current,
            },
            ..old_e
        }),
        _ => js is None && new_e == old_e,
    }
}

/// The text of the shortcut row: the binding as shown, or `(none)`.
pub fn shortcut_label(sc: Option<&Shortcut>) -> (r: String)
    ensures
        r@ == match sc {
            Some(s) => pretty_spec(s@),
            None => "(none)"@,
        },
{
    match sc {
        Some(s) => s.pretty(),
        None => {
            let mut t = String::new();
            push_str(&mut t, "(none)");
            t
        },
    }
}

/// The record button: its title, and whether it is enabled (not while
/// recording).
pub fn record_button(recording: bool) -> (r: (&'static str, bool))
    ensures
        r.0@ == if recording {
            "Press shortcut…"@
        } else {
            "Record…"@
        },
        r.1 == !recording,
{
    if recording {
        ("Press shortcut…", false)
    } else {
        ("Record…", true)
    }
}

/// The title of the version menu item.
pub fn version_title(version: &str, git_hash: &str) -> (r: String)
    ensures
        r@ == "Hush "@ + version@ + " ("@ + git_hash@ + ")"@,
{
    let mut s = String::new();
    push_str(&mut s, "Hush ");
    push_str(&mut s, version);
    push_str(&mut s, " (");
    push_str(&mut s, git_hash);
    push_str(&mut s, ")");
    s
}

/// An editing key that the settings window handles itself while the
/// parser editor has the focus.
#[derive(Debug, Clone, Copy, PartialEq, Eq, Structural)]
pub enum EditKey {
    /// Not handled here: the event goes on as usual.
    Pass,
    Undo,
    Redo,
    Paste,
}

/// Which editing key an event is: only key presses in the parser editor
/// with Command held count; Command-Z is undo, with Shift redo (either
/// case of `z`), and Command-V without Shift is paste.
pub open spec fn edit_key_spec(key_down: bool, in_parser: bool, flags: u64, chars: Option<Seq<char>>) -> EditKey {
    let mods = flags & DEVICE_INDEPENDENT_FLAGS;
    if !key_down || !in_parser || mods & FLAG_COMMAND != FLAG_COMMAND {
        EditKey::Pass
    } else {
        match chars {
            None => EditKey::Pass,
            Some(k) => if k == "z"@ || k == "Z"@ {
                if mods & FLAG_SHIFT == FLAG_SHIFT {
                    EditKey::Redo
                } else {
                    EditKey::Undo
                }
            } else if k == "v"@ && mods & FLAG_SHIFT != FLAG_SHIFT {
                EditKey::Paste
            } else {
                EditKey::Pass
            },
        }
    }
}

/// Which editing key an event is (see `edit_key_spec`).
pub fn edit_key_action(key_down: bool, in_parser: bool, flags: u64, chars: Option<&str>) -> (r: EditKey)
    ensures
        r == edit_key_spec(
            key_down,
            in_parser,
            flags,
            match chars {
                Some(c) => Some(c@),
                None => None,
            },
        ),
{
    let mods = flags & DEVICE_INDEPENDENT_FLAGS;
    if !key_down || !in_parser || mods & FLAG_COMMAND != FLAG_COMMAND {
        return EditKey::Pass;
    }
    let key = match chars {
        Some(k) => k,
        None => return EditKey::Pass,
    };
    let shift = mods & FLAG_SHIFT == FLAG_SHIFT;
    if str_eq(key, "z") || str_eq(key, "Z") {
        if shift {
            EditKey::Redo
        } else {
            EditKey::Undo
        }
    } else if str_eq(key, "v") && !shift {
        EditKey::Paste
    } else {
        EditKey::Pass
    }
}

/// The script that pastes `text` into the editor page.
pub fn native_paste_js(text: &str) -> (r: String)
    ensures
        r@ == "window.hushEditor&&window.hushEditor.nativePaste&&window.hushEditor.nativePaste("@
            + json_string_of(text@) + ")"@,
{
    let lit = json_string_literal(text);
    let mut s = String::new();
    push_str(&mut s, "window.hushEditor&&window.hushEditor.nativePaste&&window.hushEditor.nativePaste(");
    push_str(&mut s, lit.as_str());
    push_str(&mut s, ")");
    s
}

/// The script that undoes in the editor page.
pub const NATIVE_UNDO_JS: &'static str = "window.hushEditor&&window.hushEditor.nativeUndo&&window.hushEditor.nativeUndo()";

/// The script that redoes in the editor page.
pub const NATIVE_REDO_JS: &'static str = "window.hushEditor&&window.hushEditor.nativeRedo&&window.hushEditor.nativeRedo()";

} // verus!
