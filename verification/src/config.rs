//! User configuration: the push-to-talk shortcut, the transcription
//! backend, and the switches of the text pipeline.
//!
//! The shortcut is stored as a human-editable token such as `"fn"`,
//! `"left_cmd+space"`, `"left_option+key:49:Space"` or
//! `"left_cmd+right_cmd"`. Reading and
//! writing the file happens outside the library; this module turns the
//! stored fields into a `Config` and a `Shortcut` into its token.

use vstd::prelude::*;

use crate::numbers::{
    all_digits, decimal_spec, is_digit, lemma_decimal_roundtrip, lemma_parse_decimal,
    parse_bounded, parse_unsigned, to_decimal,
};
use crate::text::{
    chars_of, find_char_from, join, join_spec, push_str, split_chars, split_spec, str_eq,
    string_of, string_of_range, trim_chars, trim_spec, views, after_char, before_char,
    is_whitespace_char, lemma_split_join, lemma_trim_plain,
};

verus! {

broadcast use vstd::string::group_string_axioms;

/// A modifier key, telling left from right where the keyboard has both.
#[derive(Debug, Clone, Copy, PartialEq, Eq, Hash, Structural)]
pub enum ModKey {
    Fn,
    LeftCommand,
    RightCommand,
    LeftOption,
    RightOption,
    LeftControl,
    RightControl,
    LeftShift,
    RightShift,
    CapsLock,
}

impl ModKey {
    /// The canonical token of the key in the config file.
    pub open spec fn name_spec(self) -> Seq<char> {
        match self {
            ModKey::Fn => "fn"@,
            ModKey::LeftCommand => "left_cmd"@,
            ModKey::RightCommand => "right_cmd"@,
            ModKey::LeftOption => "left_option"@,
            ModKey::RightOption => "right_option"@,
            ModKey::LeftControl => "left_ctrl"@,
            ModKey::RightControl => "right_ctrl"@,
            ModKey::LeftShift => "left_shift"@,
            ModKey::RightShift => "right_shift"@,
            ModKey::CapsLock => "capslock"@,
        }
    }

    /// The key that a config-file token names, accepting the canonical
    /// token and its short aliases.
    pub open spec fn parse_spec(s: Seq<char>) -> Option<ModKey> {
        if s == "fn"@ {
            Some(ModKey::Fn)
        } else if s == "left_cmd"@ || s == "lcmd"@ {
            Some(ModKey::LeftCommand)
        } else if s == "right_cmd"@ || s == "rcmd"@ {
            Some(ModKey::RightCommand)
        } else if s == "left_option"@ || s == "left_opt"@ || s == "lopt"@ || s == "lalt"@ {
            Some(ModKey::LeftOption)
        } else if s == "right_option"@ || s == "right_opt"@ || s == "ropt"@ || s == "ralt"@ {
            Some(ModKey::RightOption)
        } else if s == "left_ctrl"@ || s == "lctrl"@ {
            Some(ModKey::LeftControl)
        } else if s == "right_ctrl"@ || s == "rctrl"@ {
            Some(ModKey::RightControl)
        } else if s == "left_shift"@ || s == "lshift"@ {
            Some(ModKey::LeftShift)
        } else if s == "right_shift"@ || s == "rshift"@ {
            Some(ModKey::RightShift)
        } else if s == "capslock"@ || s == "caps"@ {
            Some(ModKey::CapsLock)
        } else {
            None
        }
    }

    /// The label shown for the key in the settings window.
    pub open spec fn pretty_spec(self) -> Seq<char> {
        match self {
            ModKey::Fn => "fn"@,
            ModKey::LeftCommand => "L⌘"@,
            ModKey::RightCommand => "R⌘"@,
            ModKey::LeftOption => "L⌥"@,
            ModKey::RightOption => "R⌥"@,
            ModKey::LeftControl => "L⌃"@,
            ModKey::RightControl => "R⌃"@,
            ModKey::LeftShift => "L⇧"@,
            ModKey::RightShift => "R⇧"@,
            ModKey::CapsLock => "⇪"@,
        }
    }

    /// The canonical config-file token of the key.
    pub fn as_str(self) -> (r: &'static str)
        ensures
            r@ == self.name_spec(),
    {
        match self {
            ModKey::Fn => "fn",
            ModKey::LeftCommand => "left_cmd",
            ModKey::RightCommand => "right_cmd",
            ModKey::LeftOption => "left_option",
            ModKey::RightOption => "right_option",
            ModKey::LeftControl => "left_ctrl",
            ModKey::RightControl => "right_ctrl",
            ModKey::LeftShift => "left_shift",
            ModKey::RightShift => "right_shift",
            ModKey::CapsLock => "capslock",
        }
    }

    /// Reads a config-file token, canonical or alias.
    pub fn parse(s: &str) -> (r: Option<ModKey>)
        ensures
            r == Self::parse_spec(s@),
    {
        if str_eq(s, "fn") {
            Some(ModKey::Fn)
        } else if str_eq(s, "left_cmd") || str_eq(s, "lcmd") {
            Some(ModKey::LeftCommand)
        } else if str_eq(s, "right_cmd") || str_eq(s, "rcmd") {
            Some(ModKey::RightCommand)
        } else if str_eq(s, "left_option") || str_eq(s, "left_opt") || str_eq(s, "lopt")
            || str_eq(s, "lalt") {
            Some(ModKey::LeftOption)
        } else if str_eq(s, "right_option") || str_eq(s, "right_opt") || str_eq(s, "ropt")
            || str_eq(s, "ralt") {
            Some(ModKey::RightOption)
        } else if str_eq(s, "left_ctrl") || str_eq(s, "lctrl") {
            Some(ModKey::LeftControl)
        } else if str_eq(s, "right_ctrl") || str_eq(s, "rctrl") {
            Some(ModKey::RightControl)
        } else if str_eq(s, "left_shift") || str_eq(s, "lshift") {
            Some(ModKey::LeftShift)
        } else if str_eq(s, "right_shift") || str_eq(s, "rshift") {
            Some(ModKey::RightShift)
        } else if str_eq(s, "capslock") || str_eq(s, "caps") {
            Some(ModKey::CapsLock)
        } else {
            None
        }
    }

    /// The label shown for the key in the settings window.
    pub fn pretty(self) -> (r: &'static str)
        ensures
            r@ == self.pretty_spec(),
    {
        match self {
            ModKey::Fn => "fn",
            ModKey::LeftCommand => "L⌘",
            ModKey::RightCommand => "R⌘",
            ModKey::LeftOption => "L⌥",
            ModKey::RightOption => "R⌥",
            ModKey::LeftControl => "L⌃",
            ModKey::RightControl => "R⌃",
            ModKey::LeftShift => "L⇧",
            ModKey::RightShift => "R⇧",
            ModKey::CapsLock => "⇪",
        }
    }
}

/// The abstract content of a `Shortcut`.
#[verifier::ext_equal]
pub struct ShortcutView {
    pub mods: Seq<ModKey>,
    pub key: Option<u16>,
    pub key_label: Option<Seq<char>>,
}

/// A shortcut binding: a set of modifiers (kept in the order they were
/// added, without repeats) and an optional non-modifier key, given by its
/// virtual keycode and a display label. Without a key the chord fires on
/// the modifiers alone, like the default `fn`.
#[derive(Debug, Clone, PartialEq, Eq)]
pub struct Shortcut {
    pub mods: Vec<ModKey>,
    pub key: Option<u16>,
    pub key_label: Option<String>,
}

impl View for Shortcut {
    type V = ShortcutView;

    open spec fn view(&self) -> ShortcutView {
        ShortcutView { mods: self.mods@, key: self.key, key_label: self.key_label.deep_view() }
    }
}

/// The display labels of the parts of a shortcut: the modifiers, then the
/// key label if there is one.
pub open spec fn pretty_parts(v: ShortcutView) -> Seq<Seq<char>> {
    v.mods.map_values(|m: ModKey| m.pretty_spec()) + match v.key_label {
        Some(l) => seq![l],
        None => Seq::empty(),
    }
}

/// What `Shortcut::pretty` shows.
pub open spec fn pretty_spec(v: ShortcutView) -> Seq<char> {
    if pretty_parts(v).len() == 0 {
        "(none)"@
    } else {
        join_spec(pretty_parts(v), " + "@)
    }
}

/// The token part for the non-modifier key, if any.
pub open spec fn key_token_spec(key: Option<u16>, label: Option<Seq<char>>) -> Seq<Seq<char>> {
    match key {
        Some(code) => match label {
            Some(l) => seq!["key:"@ + decimal_spec(code as nat) + ":"@ + l],
            None => seq!["key:"@ + decimal_spec(code as nat)],
        },
        None => Seq::empty(),
    }
}

/// The token parts of a shortcut: the modifiers' canonical names, then
/// the key part.
pub open spec fn token_parts(v: ShortcutView) -> Seq<Seq<char>> {
    v.mods.map_values(|m: ModKey| m.name_spec()) + key_token_spec(v.key, v.key_label)
}

/// What `Shortcut::to_token` writes.
pub open spec fn to_token_spec(v: ShortcutView) -> Seq<char> {
    join_spec(token_parts(v), "+"@)
}

/// The empty shortcut, from which reading a token starts.
pub open spec fn empty_shortcut() -> ShortcutView {
    ShortcutView { mods: Seq::empty(), key: None, key_label: None }
}

/// The virtual keycode of the space bar.
pub const SPACE_KEYCODE: u16 = 0x31;

/// Reading one trimmed, non-empty token part into the shortcut so far.
/// A `key:` part sets the key (and its label, if a `:` follows the code);
/// `space` sets the space bar as the key, labelled `Space`; any other
/// part must name a modifier, which is added unless present.
pub open spec fn token_step(st: ShortcutView, part: Seq<char>) -> Option<ShortcutView> {
    if part.len() >= 4 && part.take(4) == "key:"@ {
        let rest = part.skip(4);
        match parse_unsigned(before_char(rest, ':'), 65535) {
            Some(code) => Some(
                ShortcutView { mods: st.mods, key: Some(code as u16), key_label: after_char(rest, ':') },
            ),
            None => None,
        }
    } else {
        match ModKey::parse_spec(part) {
            Some(m) => if st.mods.contains(m) {
                Some(st)
            } else {
                Some(ShortcutView { mods: st.mods.push(m), key: st.key, key_label: st.key_label })
            },
            None => if part == "space"@ {
                Some(
                    ShortcutView {
                        mods: st.mods,
                        key: Some(SPACE_KEYCODE),
                        key_label: Some("Space"@),
                    },
                )
            } else {
                None
            },
        }
    }
}

/// Reading the pieces of a token in order; pieces that are blank once
/// trimmed are skipped, and any unreadable piece spoils the whole token.
pub open spec fn read_pieces(pieces: Seq<Seq<char>>) -> Option<ShortcutView>
    decreases pieces.len(),
{
    if pieces.len() == 0 {
        Some(empty_shortcut())
    } else {
        match read_pieces(pieces.drop_last()) {
            None => None,
            Some(st) => {
                let p = trim_spec(pieces.last());
                if p.len() == 0 {
                    Some(st)
                } else {
                    token_step(st, p)
                }
            },
        }
    }
}

/// What `Shortcut::from_token` reads from `s`: the `+`-separated pieces,
/// refused when unreadable or when they name neither a modifier nor a key.
pub open spec fn from_token_spec(s: Seq<char>) -> Option<ShortcutView> {
    match read_pieces(split_spec(s, '+')) {
        None => None,
        Some(st) => if st.mods.len() == 0 && st.key is None {
            None
        } else {
            Some(st)
        },
    }
}

/// Once a prefix of the pieces is unreadable, so is the whole token.
proof fn lemma_read_pieces_stuck(pieces: Seq<Seq<char>>, k: int)
    requires
        0 <= k <= pieces.len(),
        read_pieces(pieces.take(k)) is None,
    ensures
        read_pieces(pieces) is None,
    decreases pieces.len() - k,
{
    if k < pieces.len() {
        assert(pieces.take(k + 1).drop_last() =~= pieces.take(k));
        lemma_read_pieces_stuck(pieces, k + 1);
    } else {
        assert(pieces.take(k) =~= pieces);
    }
}

impl Shortcut {
    /// The default binding: `fn` alone.
    pub fn fn_only() -> (r: Shortcut)
        ensures
            r@.mods == seq![ModKey::Fn],
            r@.key is None,
            r@.key_label is None,
    {
        let mut mods = Vec::new();
        mods.push(ModKey::Fn);
        Shortcut { mods, key: None, key_label: None }
    }

    /// The binding as shown in the settings window, e.g. `"L⌘ + Space"`,
    /// or `"(none)"` when it has no parts.
    pub fn pretty(&self) -> (r: String)
        ensures
            r@ == pretty_spec(self@),
    {
        let mut parts: Vec<String> = Vec::new();
        let mut i: usize = 0;
        while i < self.mods.len()
            invariant
                i <= self.mods@.len(),
                views(parts@) == self.mods@.take(i as int).map_values(|m: ModKey| m.pretty_spec()),
            decreases self.mods@.len() - i,
        {
            let ghost old_views = views(parts@);
            let mut p = String::new();
            push_str(&mut p, self.mods[i].pretty());
            parts.push(p);
            assert(views(parts@) =~= old_views.push(self.mods@[i as int].pretty_spec()));
            assert(self.mods@.take(i + 1).map_values(|m: ModKey| m.pretty_spec()) =~= self.mods@.take(
                i as int,
            ).map_values(|m: ModKey| m.pretty_spec()).push(self.mods@[i as int].pretty_spec()));
            i += 1;
        }
        assert(self.mods@.take(self.mods@.len() as int) =~= self.mods@);
        match &self.key_label {
            Some(label) => {
                let mut p = String::new();
                push_str(&mut p, label.as_str());
                parts.push(p);
            },
            None => {},
        }
        assert(views(parts@) =~= pretty_parts(self@));
        if parts.len() == 0 {
            let mut out = String::new();
            push_str(&mut out, "(none)");
            out
        } else {
            join(&parts, " + ")
        }
    }

    /// The config-file token of the binding, e.g. `"left_cmd+key:49:Space"`.
    /// A key label is written only together with a key.
    pub fn to_token(&self) -> (r: String)
        ensures
            r@ == to_token_spec(self@),
    {
        let mut parts: Vec<String> = Vec::new();
        let mut i: usize = 0;
        while i < self.mods.len()
            invariant
                i <= self.mods@.len(),
                views(parts@) == self.mods@.take(i as int).map_values(|m: ModKey| m.name_spec()),
            decreases self.mods@.len() - i,
        {
            let ghost old_views = views(parts@);
            let mut p = String::new();
            push_str(&mut p, self.mods[i].as_str());
            parts.push(p);
            assert(views(parts@) =~= old_views.push(self.mods@[i as int].name_spec()));
            assert(self.mods@.take(i + 1).map_values(|m: ModKey| m.name_spec()) =~= self.mods@.take(
                i as int,
            ).map_values(|m: ModKey| m.name_spec()).push(self.mods@[i as int].name_spec()));
            i += 1;
        }
        assert(self.mods@.take(self.mods@.len() as int) =~= self.mods@);
        match self.key {
            Some(code) => {
                let mut p = String::new();
                push_str(&mut p, "key:");
                let digits = to_decimal(code as u64);
                push_str(&mut p, digits.as_str());
                match &self.key_label {
                    Some(label) => {
                        push_str(&mut p, ":");
                        push_str(&mut p, label.as_str());
                    },
                    None => {},
                }
                parts.push(p);
            },
            None => {},
        }
        assert(views(parts@) =~= token_parts(self@));
        join(&parts, "+")
    }

    /// Reads a config-file token back into a binding. Returns `None` when a
    /// piece is neither a modifier nor a valid `key:` part, or when the
    /// token names nothing.
    pub fn from_token(s: &str) -> (r: Option<Shortcut>)
        ensures
            match r {
                Some(sc) => from_token_spec(s@) == Some(sc@),
                None => from_token_spec(s@) is None,
            },
    {
        let cs = chars_of(s);
        let pieces = split_chars(&cs, '+');
        let ghost pv = pieces@.map_values(|p: Vec<char>| p@);
        let mut mods: Vec<ModKey> = Vec::new();
        let mut key: Option<u16> = None;
        let mut key_label: Option<String> = None;
        let mut i: usize = 0;
        assert(pv.take(0) =~= Seq::<Seq<char>>::empty());
        while i < pieces.len()
            invariant
                i <= pieces@.len(),
                pv == pieces@.map_values(|p: Vec<char>| p@),
                pv == split_spec(cs@, '+'),
                cs@ == s@,
                read_pieces(pv.take(i as int)) == Some(
                    ShortcutView { mods: mods@, key: key, key_label: key_label.deep_view() },
                ),
            decreases pieces@.len() - i,
        {
            let ghost before = pv.take(i as int);
            assert(pv.take(i + 1).drop_last() =~= before);
            assert(pv.take(i + 1).last() == pieces@[i as int]@);
            let part = trim_chars(&pieces[i]);
            if part.len() == 0 {
                i += 1;
                continue ;
            }
            let ghost st = ShortcutView { mods: mods@, key: key, key_label: key_label.deep_view() };
            if part.len() >= 4 && part[0] == 'k' && part[1] == 'e' && part[2] == 'y' && part[3]
                == ':' {
                proof {
                    reveal_strlit("key:");
                    assert(part@.take(4) =~= "key:"@);
                }
                let code_end = find_char_from(&part, 4, ':');
                let code_text = string_of_range(&part, 4, code_end);
                let code = parse_bounded(code_text.as_str(), 65535);
                match code {
                    None => {
                        proof {
                            assert(code_text@ == before_char(part@.skip(4), ':'));
                            assert(token_step(st, part@) is None);
                            assert(read_pieces(pv.take(i + 1)) is None);
                            lemma_read_pieces_stuck(pv, i + 1);
                        }
                        return None;
                    },
                    Some(c) => {
                        key = Some(c as u16);
                        if code_end < part.len() {
                            key_label = Some(string_of_range(&part, code_end + 1, part.len()));
                            assert(part@.skip(code_end + 1) =~= part@.subrange(
                                code_end + 1,
                                part@.len() as int,
                            ));
                        } else {
                            key_label = None;
                        }
                    },
                }
            } else {
                proof {
                    reveal_strlit("key:");
                    if part@.len() >= 4 {
                        assert(part@.take(4)[0] == part@[0]);
                        assert(part@.take(4)[1] == part@[1]);
                        assert(part@.take(4)[2] == part@[2]);
                        assert(part@.take(4)[3] == part@[3]);
                        assert(part@.take(4) != "key:"@);
                    }
                }
                let text = string_of(&part);
                match ModKey::parse(text.as_str()) {
                    None => {
                        if str_eq(text.as_str(), "space") {
                            key = Some(SPACE_KEYCODE);
                            let mut label = String::new();
                            push_str(&mut label, "Space");
                            key_label = Some(label);
                        } else {
                            proof {
                                assert(token_step(st, part@) is None);
                                assert(read_pieces(pv.take(i + 1)) is None);
                                lemma_read_pieces_stuck(pv, i + 1);
                            }
                            return None;
                        }
                    },
                    Some(m) => {
                        let mut present = false;
                        let mut j: usize = 0;
                        while j < mods.len()
                            invariant
                                j <= mods@.len(),
                                present == mods@.take(j as int).contains(m),
                            decreases mods@.len() - j,
                        {
                            assert(mods@.take(j + 1) =~= mods@.take(j as int).push(mods@[j as int]));
                            if mods[j] == m {
                                present = true;
                                assert(mods@.take(j + 1)[j as int] == m);
                            } else {
                                assert forall|x: ModKey| #[trigger]
                                    mods@.take(j + 1).contains(x) <==> (mods@.take(
                                        j as int,
                                    ).contains(x) || x == mods@[j as int]) by {
                                    if mods@.take(j + 1).contains(x) {
                                        let w = choose|w: int|
                                            0 <= w < j + 1 && #[trigger] mods@.take(j + 1)[w] == x;
                                        if w < j {
                                            assert(mods@.take(j as int)[w] == x);
                                        }
                                    }
                                    if mods@.take(j as int).contains(x) {
                                        let w = choose|w: int|
                                            0 <= w < j && #[trigger] mods@.take(j as int)[w] == x;
                                        assert(mods@.take(j + 1)[w] == x);
                                    }
                                    if x == mods@[j as int] {
                                        assert(mods@.take(j + 1)[j as int] == x);
                                    }
                                }
                            }
                            j += 1;
                        }
                        assert(mods@.take(mods@.len() as int) =~= mods@);
                        if !present {
                            mods.push(m);
                        }
                    },
                }
            }
            i += 1;
        }
        assert(pv.take(pieces@.len() as int) =~= pv);
        if mods.len() == 0 && key.is_none() {
            return None;
        }
        Some(Shortcut { mods, key, key_label })
    }
}

// ---------------------------------------------------------------------
// Writing a shortcut and reading it back
// ---------------------------------------------------------------------

/// The shortcuts whose token reads back as the same shortcut: they name
/// something, repeat no modifier, carry a label only together with a key,
/// and their label holds no `+` and does not end in whitespace.
pub open spec fn token_round_trips(v: ShortcutView) -> bool {
    &&& (v.mods.len() > 0 || v.key is Some)
    &&& v.mods.no_duplicates()
    &&& (v.key is None ==> v.key_label is None)
    &&& match v.key_label {
        Some(l) => !l.contains('+') && (l.len() == 0 || !is_whitespace_char(l.last())),
        None => true,
    }
}

/// What a modifier's canonical name looks like to the token reader.
proof fn lemma_modkey_name(m: ModKey)
    ensures
        ModKey::parse_spec(m.name_spec()) == Some(m),
        m.name_spec().len() > 0,
        !m.name_spec().contains('+'),
        !is_whitespace_char(m.name_spec()[0]),
        !is_whitespace_char(m.name_spec().last()),
        !(m.name_spec().len() >= 4 && m.name_spec().take(4) == "key:"@),
{
    reveal_strlit("fn");
    reveal_strlit("left_cmd");
    reveal_strlit("lcmd");
    reveal_strlit("right_cmd");
    reveal_strlit("rcmd");
    reveal_strlit("left_option");
    reveal_strlit("left_opt");
    reveal_strlit("lopt");
    reveal_strlit("lalt");
    reveal_strlit("right_option");
    reveal_strlit("right_opt");
    reveal_strlit("ropt");
    reveal_strlit("ralt");
    reveal_strlit("left_ctrl");
    reveal_strlit("lctrl");
    reveal_strlit("right_ctrl");
    reveal_strlit("rctrl");
    reveal_strlit("left_shift");
    reveal_strlit("lshift");
    reveal_strlit("right_shift");
    reveal_strlit("rshift");
    reveal_strlit("capslock");
    reveal_strlit("caps");
    reveal_strlit("key:");
    let n = m.name_spec();
    if n.len() >= 4 {
        assert(n.take(4)[0] == n[0]);
        assert(n.take(4)[1] == n[1]);
    }
}

/// Reading the modifier names of a shortcut that repeats no modifier
/// gives its modifiers back, one by one.
proof fn lemma_read_mod_names(v: ShortcutView, k: int)
    requires
        token_round_trips(v),
        0 <= k <= v.mods.len(),
    ensures
        read_pieces(token_parts(v).take(k)) == Some(
            ShortcutView { mods: v.mods.take(k), key: None, key_label: None },
        ),
    decreases k,
{
    let parts = token_parts(v);
    if k == 0 {
        assert(parts.take(0) =~= Seq::<Seq<char>>::empty());
        assert(v.mods.take(0) =~= Seq::<ModKey>::empty());
        assert(empty_shortcut() =~= ShortcutView {
            mods: v.mods.take(0),
            key: None,
            key_label: None,
        });
    } else {
        lemma_read_mod_names(v, k - 1);
        let m = v.mods[k - 1];
        lemma_modkey_name(m);
        assert(parts.take(k).drop_last() =~= parts.take(k - 1));
        assert(parts.take(k).last() == m.name_spec());
        lemma_trim_plain(m.name_spec());
        assert(!v.mods.take(k - 1).contains(m)) by {
            if v.mods.take(k - 1).contains(m) {
                let w = choose|w: int| 0 <= w < k - 1 && #[trigger] v.mods.take(k - 1)[w] == m;
                assert(v.mods[w] == v.mods[k - 1]);
            }
        }
        assert(v.mods.take(k - 1).push(m) =~= v.mods.take(k));
    }
}

/// How the reader splits the key part at its first `:`.
proof fn lemma_split_key_part(d: Seq<char>, tail: Seq<char>)
    requires
        all_digits(d),
    ensures
        before_char(d + tail, ':') == d + before_char(tail, ':'),
        after_char(d + tail, ':') == after_char(tail, ':'),
    decreases d.len(),
{
    if d.len() == 0 {
        assert(d + tail =~= tail);
    } else {
        assert(is_digit(d[0]));
        assert((d + tail).drop_first() =~= d.drop_first() + tail);
        assert(all_digits(d.drop_first())) by {
            assert forall|i: int| 0 <= i < d.drop_first().len() implies is_digit(
                #[trigger] d.drop_first()[i],
            ) by {
                assert(d.drop_first()[i] == d[i + 1]);
            }
        }
        lemma_split_key_part(d.drop_first(), tail);
        assert(seq![d[0]] + (d.drop_first() + before_char(tail, ':')) =~= d + before_char(
            tail,
            ':',
        ));
    }
}

/// Writing a shortcut as a token and reading the token back gives the
/// same shortcut, for every shortcut that names something, repeats no
/// modifier, has a label only with a key, and whose label holds no `+`
/// and does not end in whitespace.
pub proof fn lemma_token_round_trip(v: ShortcutView)
    requires
        token_round_trips(v),
    ensures
        from_token_spec(to_token_spec(v)) == Some(v),
{
    reveal_strlit("+");
    reveal_strlit("key:");
    reveal_strlit(":");
    let parts = token_parts(v);
    let names = v.mods.map_values(|m: ModKey| m.name_spec());
    let kp = key_token_spec(v.key, v.key_label);
    assert(parts == names + kp);
    // No part holds the separator.
    assert forall|i: int| 0 <= i < parts.len() implies !(#[trigger] parts[i]).contains('+') by {
        if i < names.len() {
            lemma_modkey_name(v.mods[i]);
            assert(parts[i] == v.mods[i].name_spec());
        } else {
            let code = v.key->0;
            let d = decimal_spec(code as nat);
            lemma_decimal_roundtrip(code as nat);
            let p = parts[i];
            assert(p == kp[0]);
            if p.contains('+') {
                let w = choose|w: int| 0 <= w < p.len() && #[trigger] p[w] == '+';
                if w >= 4 && w < 4 + d.len() {
                    assert(p[w] == d[w - 4]);
                    assert(is_digit(d[w - 4]));
                }
                if w >= 5 + d.len() {
                    let l = v.key_label->0;
                    assert(p[w] == l[w - 5 - d.len()]);
                    assert(l.contains('+'));
                }
            }
        }
    }
    assert(parts.len() > 0);
    assert("+"@ =~= seq!['+']);
    lemma_split_join(parts, '+');
    lemma_read_mod_names(v, v.mods.len() as int);
    assert(names.len() == v.mods.len());
    assert(v.mods.take(v.mods.len() as int) =~= v.mods);
    match v.key {
        None => {
            assert(kp =~= Seq::<Seq<char>>::empty());
            assert(parts.take(v.mods.len() as int) =~= parts);
        },
        Some(code) => {
            let d = decimal_spec(code as nat);
            lemma_decimal_roundtrip(code as nat);
            lemma_parse_decimal(code as nat, 65535);
            let p = kp[0];
            assert(parts.take(parts.len() - 1) =~= parts.take(v.mods.len() as int));
            assert(parts.drop_last() =~= parts.take(v.mods.len() as int));
            assert(parts.last() == p);
            let tail = match v.key_label {
                Some(l) => ":"@ + l,
                None => Seq::<char>::empty(),
            };
            assert(p =~= "key:"@ + (d + tail));
            assert(p.take(4) =~= "key:"@);
            assert(p.skip(4) =~= d + tail);
            lemma_split_key_part(d, tail);
            assert(before_char(d + tail, ':') =~= d) by {
                match v.key_label {
                    Some(l) => {
                        assert(tail[0] == ':');
                        assert(before_char(tail, ':') =~= Seq::<char>::empty());
                    },
                    None => {
                        assert(before_char(tail, ':') =~= Seq::<char>::empty());
                    },
                }
                assert(d + Seq::<char>::empty() =~= d);
            }
            match v.key_label {
                Some(l) => {
                    assert(tail[0] == ':');
                    assert(tail.drop_first() =~= l);
                },
                None => {},
            }
            // The key part is its own trim.
            assert(p[0] == 'k');
            assert(!is_whitespace_char(p.last())) by {
                match v.key_label {
                    Some(l) => {
                        if l.len() == 0 {
                            assert(p.last() == ':');
                        } else {
                            assert(p.last() == l.last());
                        }
                    },
                    None => {
                        assert(p.last() == d.last());
                        assert(is_digit(d[d.len() - 1]));
                    },
                }
            }
            lemma_trim_plain(p);
            assert((code as nat) as u16 == code);
        },
    }
}

/// The speech-to-text engine.
#[derive(Debug, Clone, Copy, PartialEq, Eq, Structural)]
pub enum BackendKind {
    Whisper,
    Parakeet,
}

impl BackendKind {
    /// The name of the backend in the config file.
    pub open spec fn name_spec(self) -> Seq<char> {
        match self {
            BackendKind::Whisper => "whisper"@,
            BackendKind::Parakeet => "parakeet"@,
        }
    }

    /// The backend that a config-file name stands for.
    pub open spec fn parse_spec(s: Seq<char>) -> Option<BackendKind> {
        if s == "whisper"@ {
            Some(BackendKind::Whisper)
        } else if s == "parakeet"@ {
            Some(BackendKind::Parakeet)
        } else {
            None
        }
    }

    /// The name of the backend in the config file.
    pub fn as_str(self) -> (r: &'static str)
        ensures
            r@ == self.name_spec(),
    {
        match self {
            BackendKind::Whisper => "whisper",
            BackendKind::Parakeet => "parakeet",
        }
    }

    /// Reads a backend name; only the exact names are accepted.
    pub fn parse(s: &str) -> (r: Option<BackendKind>)
        ensures
            r == Self::parse_spec(s@),
    {
        if str_eq(s, "whisper") {
            Some(BackendKind::Whisper)
        } else if str_eq(s, "parakeet") {
            Some(BackendKind::Parakeet)
        } else {
            None
        }
    }
}

/// Which Parakeet model to run.
#[derive(Debug, Clone, Copy, PartialEq, Eq, Structural)]
pub enum ParakeetModel {
    V06b,
    V11b,
}

/// The switches of transcript cleanup.
#[derive(Debug, Clone, Copy, PartialEq, Eq, Structural)]
pub struct CleanupConfig {
    pub capitalize: bool,
    pub end_period: bool,
    pub end_question: bool,
}

/// The user's custom JavaScript post-processor.
#[derive(Debug, Clone, PartialEq, Eq)]
pub struct CustomParserConfig {
    pub enabled: bool,
    pub script: String,
}

/// The whole configuration.
#[derive(Debug, Clone)]
pub struct Config {
    pub shortcut: Shortcut,
    pub backend: BackendKind,
    pub parakeet_model: ParakeetModel,
    pub custom_parser: CustomParserConfig,
    pub cleanup: CleanupConfig,
}

/// Whether a configuration holds the defaults: the `fn` shortcut, the
/// Parakeet backend with the small model, the custom parser off with an
/// empty script, and no cleanup.
pub open spec fn is_default_config(c: Config) -> bool {
    &&& c.shortcut@.mods == seq![ModKey::Fn]
    &&& c.shortcut@.key is None
    &&& c.shortcut@.key_label is None
    &&& c.backend == BackendKind::Parakeet
    &&& c.parakeet_model == ParakeetModel::V06b
    &&& !c.custom_parser.enabled
    &&& c.custom_parser.script@ == Seq::<char>::empty()
    &&& !c.cleanup.capitalize
    &&& !c.cleanup.end_period
    &&& !c.cleanup.end_question
}

impl Default for Config {
    fn default() -> (r: Config)
        ensures
            is_default_config(r),
    {
        Config {
            shortcut: Shortcut::fn_only(),
            backend: BackendKind::Parakeet,
            parakeet_model: ParakeetModel::V06b,
            custom_parser: CustomParserConfig { enabled: false, script: String::new() },
            cleanup: CleanupConfig { capitalize: false, end_period: false, end_question: false },
        }
    }
}

/// The backend chosen from the environment override and the config file:
/// the first that names a backend wins, else Parakeet.
pub open spec fn choose_backend(env: Option<Seq<char>>, file: Option<Seq<char>>) -> BackendKind {
    match env {
        Some(e) if BackendKind::parse_spec(e) is Some => BackendKind::parse_spec(e)->0,
        _ => match file {
            Some(f) if BackendKind::parse_spec(f) is Some => BackendKind::parse_spec(f)->0,
            _ => BackendKind::Parakeet,
        },
    }
}

/// Reads an optional backend name.
fn parse_backend_opt(s: Option<&str>) -> (r: Option<BackendKind>)
    ensures
        r == (match s {
            Some(t) => BackendKind::parse_spec(t@),
            None => None,
        }),
{
    match s {
        Some(t) => BackendKind::parse(t),
        None => None,
    }
}

/// The configuration file under the home directory.
pub fn config_path(home: &str) -> (r: String)
    ensures
        r@ == crate::paths::join_spec(
            crate::paths::join_spec(crate::paths::join_spec(home@, ".config"@), "hush"@),
            "config.toml"@,
        ),
{
    proof {
        reveal_strlit(".config");
        reveal_strlit("hush");
        reveal_strlit("config.toml");
    }
    let a = crate::paths::join_path(home, ".config");
    let b = crate::paths::join_path(a.as_str(), "hush");
    crate::paths::join_path(b.as_str(), "config.toml")
}

impl Config {
    /// The configuration read from the stored fields: the shortcut token
    /// (the default `fn` when it is missing or unreadable) and the backend
    /// name, where the environment override `backend_env` comes before the
    /// file's `backend_file`. The other settings keep their defaults.
    pub fn from_stored(shortcut: Option<&str>, backend_env: Option<&str>, backend_file: Option<
        &str,
    >) -> (r: Config)
        ensures
            match shortcut {
                Some(t) if from_token_spec(t@) is Some => r.shortcut@ == from_token_spec(t@)->0,
                _ => r.shortcut@.mods == seq![ModKey::Fn] && r.shortcut@.key is None
                    && r.shortcut@.key_label is None,
            },
            r.backend == choose_backend(
                match backend_env {
                    Some(e) => Some(e@),
                    None => None,
                },
                match backend_file {
                    Some(f) => Some(f@),
                    None => None,
                },
            ),
            r.parakeet_model == ParakeetModel::V06b,
            !r.custom_parser.enabled,
            r.custom_parser.script@ == Seq::<char>::empty(),
            !r.cleanup.capitalize && !r.cleanup.end_period && !r.cleanup.end_question,
    {
        let sc = match shortcut {
            Some(t) => match Shortcut::from_token(t) {
                Some(sc) => sc,
                None => Shortcut::fn_only(),
            },
            None => Shortcut::fn_only(),
        };
        let backend = match parse_backend_opt(backend_env) {
            Some(b) => b,
            None => match parse_backend_opt(backend_file) {
                Some(b) => b,
                None => BackendKind::Parakeet,
            },
        };
        let d = Config::default();
        Config {
            shortcut: sc,
            backend,
            parakeet_model: d.parakeet_model,
            custom_parser: d.custom_parser,
            cleanup: d.cleanup,
        }
    }

    /// The fields that are written to the config file: the shortcut token
    /// and the backend name.
    pub fn stored_fields(&self) -> (r: (String, String))
        ensures
            r.0@ == to_token_spec(self.shortcut@),
            r.1@ == self.backend.name_spec(),
    {
        let token = self.shortcut.to_token();
        let mut backend = String::new();
        push_str(&mut backend, self.backend.as_str());
        (token, backend)
    }
}


/// Every modifier reads back from its canonical name.
pub proof fn lemma_modkey_round_trip(m: ModKey)
    ensures
        ModKey::parse_spec(m.name_spec()) == Some(m),
{
    lemma_modkey_name(m);
}

/// Every accepted token, canonical or alias, names its own key: the
/// `left`/`l` tokens the left key, the `right`/`r` tokens the right key,
/// `opt` and `alt` the option key.
pub proof fn lemma_modkey_aliases()
    ensures
        ModKey::parse_spec("fn"@) == Some(ModKey::Fn),
        ModKey::parse_spec("left_cmd"@) == Some(ModKey::LeftCommand),
        ModKey::parse_spec("lcmd"@) == Some(ModKey::LeftCommand),
        ModKey::parse_spec("right_cmd"@) == Some(ModKey::RightCommand),
        ModKey::parse_spec("rcmd"@) == Some(ModKey::RightCommand),
        ModKey::parse_spec("left_option"@) == Some(ModKey::LeftOption),
        ModKey::parse_spec("left_opt"@) == Some(ModKey::LeftOption),
        ModKey::parse_spec("lopt"@) == Some(ModKey::LeftOption),
        ModKey::parse_spec("lalt"@) == Some(ModKey::LeftOption),
        ModKey::parse_spec("right_option"@) == Some(ModKey::RightOption),
        ModKey::parse_spec("right_opt"@) == Some(ModKey::RightOption),
        ModKey::parse_spec("ropt"@) == Some(ModKey::RightOption),
        ModKey::parse_spec("ralt"@) == Some(ModKey::RightOption),
        ModKey::parse_spec("left_ctrl"@) == Some(ModKey::LeftControl),
        ModKey::parse_spec("lctrl"@) == Some(ModKey::LeftControl),
        ModKey::parse_spec("right_ctrl"@) == Some(ModKey::RightControl),
        ModKey::parse_spec("rctrl"@) == Some(ModKey::RightControl),
        ModKey::parse_spec("left_shift"@) == Some(ModKey::LeftShift),
        ModKey::parse_spec("lshift"@) == Some(ModKey::LeftShift),
        ModKey::parse_spec("right_shift"@) == Some(ModKey::RightShift),
        ModKey::parse_spec("rshift"@) == Some(ModKey::RightShift),
        ModKey::parse_spec("capslock"@) == Some(ModKey::CapsLock),
        ModKey::parse_spec("caps"@) == Some(ModKey::CapsLock),
{
    reveal_strlit("fn");
    reveal_strlit("left_cmd");
    reveal_strlit("lcmd");
    reveal_strlit("right_cmd");
    reveal_strlit("rcmd");
    reveal_strlit("left_option");
    reveal_strlit("left_opt");
    reveal_strlit("lopt");
    reveal_strlit("lalt");
    reveal_strlit("right_option");
    reveal_strlit("right_opt");
    reveal_strlit("ropt");
    reveal_strlit("ralt");
    reveal_strlit("left_ctrl");
    reveal_strlit("lctrl");
    reveal_strlit("right_ctrl");
    reveal_strlit("rctrl");
    reveal_strlit("left_shift");
    reveal_strlit("lshift");
    reveal_strlit("right_shift");
    reveal_strlit("rshift");
    reveal_strlit("capslock");
    reveal_strlit("caps");
    assert("fn"@.len() == 2);
    assert("left_cmd"@.len() == 8);
    assert("lcmd"@.len() == 4);
    assert("right_cmd"@.len() == 9);
    assert("rcmd"@.len() == 4);
    assert("left_option"@.len() == 11);
    assert("left_opt"@.len() == 8);
    assert("lopt"@.len() == 4);
    assert("lalt"@.len() == 4);
    assert("right_option"@.len() == 12);
    assert("right_opt"@.len() == 9);
    assert("ropt"@.len() == 4);
    assert("ralt"@.len() == 4);
    assert("left_ctrl"@.len() == 9);
    assert("lctrl"@.len() == 5);
    assert("right_ctrl"@.len() == 10);
    assert("rctrl"@.len() == 5);
    assert("left_shift"@.len() == 10);
    assert("lshift"@.len() == 6);
    assert("right_shift"@.len() == 11);
    assert("rshift"@.len() == 6);
    assert("capslock"@.len() == 8);
    assert("caps"@.len() == 4);
    assert("rcmd"@[0] != "lcmd"@[0]);
    assert("left_opt"@[5] != "left_cmd"@[5]);
    assert("lopt"@[1] != "lcmd"@[1]);
    assert("lopt"@[0] != "rcmd"@[0]);
    assert("lalt"@[1] != "lcmd"@[1]);
    assert("lalt"@[0] != "rcmd"@[0]);
    assert("lalt"@[1] != "lopt"@[1]);
    assert("right_opt"@[6] != "right_cmd"@[6]);
    assert("ropt"@[0] != "lcmd"@[0]);
    assert("ropt"@[1] != "rcmd"@[1]);
    assert("ropt"@[0] != "lopt"@[0]);
    assert("ropt"@[0] != "lalt"@[0]);
    assert("ralt"@[0] != "lcmd"@[0]);
    assert("ralt"@[1] != "rcmd"@[1]);
    assert("ralt"@[0] != "lopt"@[0]);
    assert("ralt"@[0] != "lalt"@[0]);
    assert("ralt"@[1] != "ropt"@[1]);
    assert("left_ctrl"@[0] != "right_cmd"@[0]);
    assert("left_ctrl"@[0] != "right_opt"@[0]);
    assert("rctrl"@[0] != "lctrl"@[0]);
    assert("left_shift"@[0] != "right_ctrl"@[0]);
    assert("right_shift"@[0] != "left_option"@[0]);
    assert("rshift"@[0] != "lshift"@[0]);
    assert("capslock"@[0] != "left_cmd"@[0]);
    assert("capslock"@[0] != "left_opt"@[0]);
    assert("caps"@[0] != "lcmd"@[0]);
    assert("caps"@[0] != "rcmd"@[0]);
    assert("caps"@[0] != "lopt"@[0]);
    assert("caps"@[0] != "lalt"@[0]);
    assert("caps"@[0] != "ropt"@[0]);
    assert("caps"@[0] != "ralt"@[0]);
}

/// Every backend reads back from its name.
pub proof fn lemma_backend_round_trip(b: BackendKind)
    ensures
        BackendKind::parse_spec(b.name_spec()) == Some(b),
{
    reveal_strlit("whisper");
    reveal_strlit("parakeet");
    assert("parakeet"@[0] != "whisper"@[0]);
}

/// What is saved is what is loaded: the stored fields of a configuration
/// read back, without an environment override, as the same shortcut and
/// backend, for every shortcut whose token round-trips.
pub proof fn lemma_config_round_trip(c: Config)
    requires
        token_round_trips(c.shortcut@),
    ensures
        from_token_spec(to_token_spec(c.shortcut@)) == Some(c.shortcut@),
        choose_backend(None, Some(c.backend.name_spec())) == c.backend,
{
    lemma_token_round_trip(c.shortcut@);
    lemma_backend_round_trip(c.backend);
}

} // verus!
