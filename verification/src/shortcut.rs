//! The push-to-talk shortcut engine.
//!
//! Keyboard events arrive as plain values (their kind, virtual keycode,
//! modifier-flag bits and, for key presses, the typed characters). The
//! engine tracks which modifiers are held, side by side, and whether the
//! bound key is down. When every part of the binding is held it asks for
//! `Trigger::Start`; when any part is released it asks for
//! `Trigger::Stop`.
//!
//! While the settings window records a new shortcut, events feed a
//! recording buffer instead: it gathers every modifier and the first
//! non-modifier key the user touches, and commits once everything is
//! released. Escape cancels.

use vstd::prelude::*;

use crate::config::{ModKey, Shortcut, ShortcutView};
use crate::numbers::{hex2_spec, to_hex2};
use crate::pipeline::Trigger;
use crate::text::{
    char_is_control, chars_of, is_control_char, push_str, str_eq, str_to_uppercase,
    uppercase_of,
};

verus! {

broadcast use vstd::string::group_string_axioms;

// Virtual keycodes of the modifier keys. They are the only way to tell a
// left modifier from a right one: the flag bits do not.
pub const KVK_COMMAND: u16 = 0x37;
pub const KVK_RIGHT_COMMAND: u16 = 0x36;
pub const KVK_OPTION: u16 = 0x3A;
pub const KVK_RIGHT_OPTION: u16 = 0x3D;
pub const KVK_CONTROL: u16 = 0x3B;
pub const KVK_RIGHT_CONTROL: u16 = 0x3E;
pub const KVK_SHIFT: u16 = 0x38;
pub const KVK_RIGHT_SHIFT: u16 = 0x3C;
pub const KVK_CAPS_LOCK: u16 = 0x39;
pub const KVK_FUNCTION: u16 = 0x3F;

/// The keycode of Escape, which cancels a recording.
pub const KVK_ESCAPE: u16 = 0x35;

// Modifier-flag bits of a keyboard event (device-independent part).
pub const FLAG_CAPS_LOCK: u64 = 0x1_0000;
pub const FLAG_SHIFT: u64 = 0x2_0000;
pub const FLAG_CONTROL: u64 = 0x4_0000;
pub const FLAG_OPTION: u64 = 0x8_0000;
pub const FLAG_COMMAND: u64 = 0x10_0000;
pub const FLAG_FUNCTION: u64 = 0x80_0000;

/// The kind of a keyboard event.
#[derive(Debug, Clone, Copy, PartialEq, Eq, Structural)]
pub enum KeyEventKind {
    FlagsChanged,
    KeyDown,
    KeyUp,
    /// Any other event; the engine ignores it.
    Other,
}

/// The modifier that a keycode belongs to, if it is a modifier key.
pub open spec fn modkey_of_keycode(code: u16) -> Option<ModKey> {
    if code == KVK_COMMAND {
        Some(ModKey::LeftCommand)
    } else if code == KVK_RIGHT_COMMAND {
        Some(ModKey::RightCommand)
    } else if code == KVK_OPTION {
        Some(ModKey::LeftOption)
    } else if code == KVK_RIGHT_OPTION {
        Some(ModKey::RightOption)
    } else if code == KVK_CONTROL {
        Some(ModKey::LeftControl)
    } else if code == KVK_RIGHT_CONTROL {
        Some(ModKey::RightControl)
    } else if code == KVK_SHIFT {
        Some(ModKey::LeftShift)
    } else if code == KVK_RIGHT_SHIFT {
        Some(ModKey::RightShift)
    } else if code == KVK_CAPS_LOCK {
        Some(ModKey::CapsLock)
    } else if code == KVK_FUNCTION {
        Some(ModKey::Fn)
    } else {
        None
    }
}

/// Each modifier key's virtual keycode names its own, sided modifier:
/// 0x37 left command, 0x36 right command, 0x3A left option, 0x3D right
/// option, 0x3B left control, 0x3E right control, 0x38 left shift, 0x3C
/// right shift, 0x39 caps lock, 0x3F fn; no other keycode is a modifier.
pub proof fn lemma_modifier_keycodes(code: u16)
    ensures
        modkey_of_keycode(0x37) == Some(ModKey::LeftCommand),
        modkey_of_keycode(0x36) == Some(ModKey::RightCommand),
        modkey_of_keycode(0x3A) == Some(ModKey::LeftOption),
        modkey_of_keycode(0x3D) == Some(ModKey::RightOption),
        modkey_of_keycode(0x3B) == Some(ModKey::LeftControl),
        modkey_of_keycode(0x3E) == Some(ModKey::RightControl),
        modkey_of_keycode(0x38) == Some(ModKey::LeftShift),
        modkey_of_keycode(0x3C) == Some(ModKey::RightShift),
        modkey_of_keycode(0x39) == Some(ModKey::CapsLock),
        modkey_of_keycode(0x3F) == Some(ModKey::Fn),
        modkey_of_keycode(code) is Some <==> (0x36 <= code <= 0x3F && code != 0x35),
{
}

/// Pressing a modifier key (its flag bit set) while nothing is held and the
/// chord is off, outside recording, starts dictation when the binding is
/// exactly that modifier: a left control press fires a left-control
/// binding, and a right control press does not.
pub proof fn lemma_sided_press_fires_own_binding(e: EngineView, code: u16, flags: u64, m: ModKey)
    requires
        !e.recording,
        !e.chord_active,
        e.session == no_mods(),
        e.binding.mods == seq![m],
        e.binding.key is None,
        flags_contain(flags, flag_bit_spec(m)),
    ensures
        code == 0x3B && m == ModKey::LeftControl ==> step_spec(
            e,
            KeyEventKind::FlagsChanged,
            code,
            flags,
            None,
        ).1 == ActionView::Trigger(Trigger::Start),
        code == 0x3E && m == ModKey::LeftControl ==> step_spec(
            e,
            KeyEventKind::FlagsChanged,
            code,
            flags,
            None,
        ).1 == ActionView::Nothing,
        modkey_of_keycode(code) == Some(m) ==> step_spec(
            e,
            KeyEventKind::FlagsChanged,
            code,
            flags,
            None,
        ).1 == ActionView::Trigger(Trigger::Start),
{
    let sess = session_after(e.session, KeyEventKind::FlagsChanged, code, flags);
    lemma_held_spec(sess);
    if modkey_of_keycode(code) == Some(m) {
        assert(sess == no_mods().with(m, true));
        assert(sess.held_spec().contains(m));
    }
    if code == 0x3E && m == ModKey::LeftControl {
        assert(sess == no_mods().with(ModKey::RightControl, true));
        assert(!sess.held_spec().contains(ModKey::LeftControl));
        assert(e.binding.mods[0] == ModKey::LeftControl);
        assert(!bind_satisfied_spec(e.binding, sess.held_spec(), e.key_down));
    }
}

/// The modifier that a keycode belongs to, if it is a modifier key.
pub fn keycode_to_modkey(code: u16) -> (r: Option<ModKey>)
    ensures
        r == modkey_of_keycode(code),
{
    if code == KVK_COMMAND {
        Some(ModKey::LeftCommand)
    } else if code == KVK_RIGHT_COMMAND {
        Some(ModKey::RightCommand)
    } else if code == KVK_OPTION {
        Some(ModKey::LeftOption)
    } else if code == KVK_RIGHT_OPTION {
        Some(ModKey::RightOption)
    } else if code == KVK_CONTROL {
        Some(ModKey::LeftControl)
    } else if code == KVK_RIGHT_CONTROL {
        Some(ModKey::RightControl)
    } else if code == KVK_SHIFT {
        Some(ModKey::LeftShift)
    } else if code == KVK_RIGHT_SHIFT {
        Some(ModKey::RightShift)
    } else if code == KVK_CAPS_LOCK {
        Some(ModKey::CapsLock)
    } else if code == KVK_FUNCTION {
        Some(ModKey::Fn)
    } else {
        None
    }
}

/// The flag bit that reports a modifier; both sides share one bit.
pub open spec fn flag_bit_spec(m: ModKey) -> u64 {
    match m {
        ModKey::Fn => FLAG_FUNCTION,
        ModKey::LeftCommand | ModKey::RightCommand => FLAG_COMMAND,
        ModKey::LeftOption | ModKey::RightOption => FLAG_OPTION,
        ModKey::LeftControl | ModKey::RightControl => FLAG_CONTROL,
        ModKey::LeftShift | ModKey::RightShift => FLAG_SHIFT,
        ModKey::CapsLock => FLAG_CAPS_LOCK,
    }
}

/// The flag bit that reports a modifier.
pub fn modkey_flag_bit(m: ModKey) -> (r: u64)
    ensures
        r == flag_bit_spec(m),
{
    match m {
        ModKey::Fn => FLAG_FUNCTION,
        ModKey::LeftCommand | ModKey::RightCommand => FLAG_COMMAND,
        ModKey::LeftOption | ModKey::RightOption => FLAG_OPTION,
        ModKey::LeftControl | ModKey::RightControl => FLAG_CONTROL,
        ModKey::LeftShift | ModKey::RightShift => FLAG_SHIFT,
        ModKey::CapsLock => FLAG_CAPS_LOCK,
    }
}

/// Whether every bit of `bit` is set in `flags`.
pub open spec fn flags_contain(flags: u64, bit: u64) -> bool {
    flags & bit == bit
}

/// Which modifiers are held, one switch per physical key.
#[derive(Debug, Clone, Copy, PartialEq, Eq, Structural)]
pub struct SessionMods {
    pub fn_: bool,
    pub lcmd: bool,
    pub rcmd: bool,
    pub lopt: bool,
    pub ropt: bool,
    pub lctrl: bool,
    pub rctrl: bool,
    pub lshift: bool,
    pub rshift: bool,
    pub caps: bool,
}

/// `seq![m]` when `b` holds, else the empty sequence.
pub open spec fn when_held(b: bool, m: ModKey) -> Seq<ModKey> {
    if b {
        seq![m]
    } else {
        Seq::empty()
    }
}

/// No modifier held.
pub open spec fn no_mods() -> SessionMods {
    SessionMods {
        fn_: false,
        lcmd: false,
        rcmd: false,
        lopt: false,
        ropt: false,
        lctrl: false,
        rctrl: false,
        lshift: false,
        rshift: false,
        caps: false,
    }
}

impl SessionMods {
    /// Whether `mk` is held.
    pub open spec fn has(self, mk: ModKey) -> bool {
        match mk {
            ModKey::Fn => self.fn_,
            ModKey::LeftCommand => self.lcmd,
            ModKey::RightCommand => self.rcmd,
            ModKey::LeftOption => self.lopt,
            ModKey::RightOption => self.ropt,
            ModKey::LeftControl => self.lctrl,
            ModKey::RightControl => self.rctrl,
            ModKey::LeftShift => self.lshift,
            ModKey::RightShift => self.rshift,
            ModKey::CapsLock => self.caps,
        }
    }

    /// The held modifiers, in the fixed order fn, left/right command,
    /// option, control, shift, caps lock.
    pub open spec fn held_spec(self) -> Seq<ModKey> {
        held_below(self, 10)
    }

    /// The same switches with `mk` set to `v`.
    pub open spec fn with(self, mk: ModKey, v: bool) -> SessionMods {
        match mk {
            ModKey::Fn => SessionMods { fn_: v, ..self },
            ModKey::LeftCommand => SessionMods { lcmd: v, ..self },
            ModKey::RightCommand => SessionMods { rcmd: v, ..self },
            ModKey::LeftOption => SessionMods { lopt: v, ..self },
            ModKey::RightOption => SessionMods { ropt: v, ..self },
            ModKey::LeftControl => SessionMods { lctrl: v, ..self },
            ModKey::RightControl => SessionMods { rctrl: v, ..self },
            ModKey::LeftShift => SessionMods { lshift: v, ..self },
            ModKey::RightShift => SessionMods { rshift: v, ..self },
            ModKey::CapsLock => SessionMods { caps: v, ..self },
        }
    }

    /// Marks `mk` as held or released.
    pub fn set(&mut self, mk: ModKey, v: bool)
        ensures
            *final(self) == old(self).with(mk, v),
    {
        match mk {
            ModKey::Fn => self.fn_ = v,
            ModKey::LeftCommand => self.lcmd = v,
            ModKey::RightCommand => self.rcmd = v,
            ModKey::LeftOption => self.lopt = v,
            ModKey::RightOption => self.ropt = v,
            ModKey::LeftControl => self.lctrl = v,
            ModKey::RightControl => self.rctrl = v,
            ModKey::LeftShift => self.lshift = v,
            ModKey::RightShift => self.rshift = v,
            ModKey::CapsLock => self.caps = v,
        }
    }

    /// Whether `mk` is held.
    pub fn contains(&self, mk: ModKey) -> (r: bool)
        ensures
            r == self.has(mk),
    {
        match mk {
            ModKey::Fn => self.fn_,
            ModKey::LeftCommand => self.lcmd,
            ModKey::RightCommand => self.rcmd,
            ModKey::LeftOption => self.lopt,
            ModKey::RightOption => self.ropt,
            ModKey::LeftControl => self.lctrl,
            ModKey::RightControl => self.rctrl,
            ModKey::LeftShift => self.lshift,
            ModKey::RightShift => self.rshift,
            ModKey::CapsLock => self.caps,
        }
    }

    /// The held modifiers, in the fixed order of `held_spec`.
    pub fn held(&self) -> (r: Vec<ModKey>)
        ensures
            r@ == self.held_spec(),
    {
        let mut v: Vec<ModKey> = Vec::new();
        proof {
            lemma_held_step(*self, 0);
        }
        push_if_held(&mut v, self.fn_, ModKey::Fn);
        proof {
            lemma_held_step(*self, 0);
            assert(mod_of_rank(0) == ModKey::Fn);
            assert(v@ == held_below(*self, 1));
        }
        push_if_held(&mut v, self.lcmd, ModKey::LeftCommand);
        proof {
            lemma_held_step(*self, 1);
            assert(mod_of_rank(1) == ModKey::LeftCommand);
            assert(v@ == held_below(*self, 2));
        }
        push_if_held(&mut v, self.rcmd, ModKey::RightCommand);
        proof {
            lemma_held_step(*self, 2);
            assert(mod_of_rank(2) == ModKey::RightCommand);
            assert(v@ == held_below(*self, 3));
        }
        push_if_held(&mut v, self.lopt, ModKey::LeftOption);
        proof {
            lemma_held_step(*self, 3);
            assert(mod_of_rank(3) == ModKey::LeftOption);
            assert(v@ == held_below(*self, 4));
        }
        push_if_held(&mut v, self.ropt, ModKey::RightOption);
        proof {
            lemma_held_step(*self, 4);
            assert(mod_of_rank(4) == ModKey::RightOption);
            assert(v@ == held_below(*self, 5));
        }
        push_if_held(&mut v, self.lctrl, ModKey::LeftControl);
        proof {
            lemma_held_step(*self, 5);
            assert(mod_of_rank(5) == ModKey::LeftControl);
            assert(v@ == held_below(*self, 6));
        }
        push_if_held(&mut v, self.rctrl, ModKey::RightControl);
        proof {
            lemma_held_step(*self, 6);
            assert(mod_of_rank(6) == ModKey::RightControl);
            assert(v@ == held_below(*self, 7));
        }
        push_if_held(&mut v, self.lshift, ModKey::LeftShift);
        proof {
            lemma_held_step(*self, 7);
            assert(mod_of_rank(7) == ModKey::LeftShift);
            assert(v@ == held_below(*self, 8));
        }
        push_if_held(&mut v, self.rshift, ModKey::RightShift);
        proof {
            lemma_held_step(*self, 8);
            assert(mod_of_rank(8) == ModKey::RightShift);
            assert(v@ == held_below(*self, 9));
        }
        push_if_held(&mut v, self.caps, ModKey::CapsLock);
        proof {
            lemma_held_step(*self, 9);
            assert(mod_of_rank(9) == ModKey::CapsLock);
            assert(v@ == held_below(*self, 10));
        }
        v
    }
}

/// Appends `m` when `b` holds.
fn push_if_held(v: &mut Vec<ModKey>, b: bool, m: ModKey)
    ensures
        final(v)@ == old(v)@ + when_held(b, m),
{
    if b {
        v.push(m);
    }
    assert(v@ =~= old(v)@ + when_held(b, m));
}

impl Default for SessionMods {
    fn default() -> (r: SessionMods)
        ensures
            r == no_mods(),
    {
        SessionMods {
            fn_: false,
            lcmd: false,
            rcmd: false,
            lopt: false,
            ropt: false,
            lctrl: false,
            rctrl: false,
            lshift: false,
            rshift: false,
            caps: false,
        }
    }
}

/// The rank of a modifier in the fixed order of `held_spec`.
pub open spec fn mod_rank(m: ModKey) -> int {
    match m {
        ModKey::Fn => 0,
        ModKey::LeftCommand => 1,
        ModKey::RightCommand => 2,
        ModKey::LeftOption => 3,
        ModKey::RightOption => 4,
        ModKey::LeftControl => 5,
        ModKey::RightControl => 6,
        ModKey::LeftShift => 7,
        ModKey::RightShift => 8,
        ModKey::CapsLock => 9,
    }
}

/// The modifier of rank `k`, for `0 <= k < 10`.
pub open spec fn mod_of_rank(k: int) -> ModKey {
    if k <= 0 {
        ModKey::Fn
    } else if k == 1 {
        ModKey::LeftCommand
    } else if k == 2 {
        ModKey::RightCommand
    } else if k == 3 {
        ModKey::LeftOption
    } else if k == 4 {
        ModKey::RightOption
    } else if k == 5 {
        ModKey::LeftControl
    } else if k == 6 {
        ModKey::RightControl
    } else if k == 7 {
        ModKey::LeftShift
    } else if k == 8 {
        ModKey::RightShift
    } else {
        ModKey::CapsLock
    }
}

/// The held modifiers of rank below `k`, in rank order.
#[verifier::opaque]
pub open spec fn held_below(s: SessionMods, k: int) -> Seq<ModKey>
    decreases k,
{
    if k <= 0 {
        Seq::empty()
    } else {
        held_below(s, k - 1) + when_held(s.has(mod_of_rank(k - 1)), mod_of_rank(k - 1))
    }
}

proof fn lemma_held_step(s: SessionMods, k: int)
    requires
        0 <= k,
    ensures
        held_below(s, 0) == Seq::<ModKey>::empty(),
        held_below(s, k + 1) == held_below(s, k) + when_held(s.has(mod_of_rank(k)), mod_of_rank(k)),
{
    reveal(held_below);
}

proof fn lemma_held_below(s: SessionMods, k: int)
    requires
        0 <= k <= 10,
    ensures
        forall|m: ModKey| #[trigger]
            held_below(s, k).contains(m) <==> (s.has(m) && mod_rank(m) < k),
        held_below(s, k).no_duplicates(),
        held_below(s, k).len() == 0 <==> (forall|m: ModKey| s.has(m) ==> mod_rank(m) >= k),
    decreases k,
{
    lemma_held_step(s, 0);
    if k > 0 {
        lemma_held_below(s, k - 1);
        let prev = held_below(s, k - 1);
        let m0 = mod_of_rank(k - 1);
        let tail = when_held(s.has(m0), m0);
        let cur = held_below(s, k);
        lemma_held_step(s, k - 1);
        assert(cur == prev + tail);
        assert(mod_rank(m0) == k - 1);
        assert forall|m: ModKey| #[trigger] cur.contains(m) <==> (s.has(m) && mod_rank(m) < k) by {
            if cur.contains(m) {
                let i = choose|i: int| 0 <= i < cur.len() && cur[i] == m;
                if i < prev.len() {
                    assert(prev[i] == m);
                    assert(prev.contains(m));
                } else {
                    assert(tail[i - prev.len()] == m);
                }
            }
            if s.has(m) && mod_rank(m) < k {
                if mod_rank(m) < k - 1 {
                    assert(prev.contains(m));
                    let i = choose|i: int| 0 <= i < prev.len() && prev[i] == m;
                    assert(cur[i] == m);
                } else {
                    assert(m == m0);
                    assert(cur[prev.len() as int] == m);
                }
            }
        }
        assert forall|i: int, j: int| 0 <= i < cur.len() && 0 <= j < cur.len() && i != j implies cur[i]
            != cur[j] by {
            if i < prev.len() && j < prev.len() {
                assert(cur[i] == prev[i] && cur[j] == prev[j]);
            } else if i < prev.len() {
                assert(prev.contains(cur[i]));
                assert(cur[j] == m0);
            } else if j < prev.len() {
                assert(prev.contains(cur[j]));
                assert(cur[i] == m0);
            }
        }
        if !s.has(m0) && prev.len() == 0 {
            assert forall|m: ModKey| s.has(m) implies mod_rank(m) >= k by {
                if mod_rank(m) == k - 1 {
                    assert(m == m0);
                }
            }
        }
        if s.has(m0) {
            assert(cur.len() > 0);
        }
    }
}

proof fn lemma_held_below_sorted(s: SessionMods, k: int)
    requires
        0 <= k <= 10,
    ensures
        forall|i: int, j: int|
            0 <= i < j < held_below(s, k).len() ==> mod_rank(#[trigger] held_below(s, k)[i])
                < mod_rank(#[trigger] held_below(s, k)[j]),
    decreases k,
{
    lemma_held_step(s, 0);
    if k > 0 {
        lemma_held_below_sorted(s, k - 1);
        lemma_held_below(s, k - 1);
        lemma_held_step(s, k - 1);
        let prev = held_below(s, k - 1);
        let m0 = mod_of_rank(k - 1);
        let cur = held_below(s, k);
        assert(mod_rank(m0) == k - 1);
        assert forall|i: int, j: int| 0 <= i < j < cur.len() implies mod_rank(#[trigger] cur[i])
            < mod_rank(#[trigger] cur[j]) by {
            if j < prev.len() {
                assert(cur[i] == prev[i] && cur[j] == prev[j]);
            } else {
                assert(cur[i] == prev[i]);
                assert(prev.contains(prev[i]));
                assert(cur[j] == m0);
            }
        }
    }
}

/// After `set(mk, v)`, the held list names `mk` exactly when `v` holds
/// and every other modifier as before, and it always comes in the fixed
/// order of `held_spec`, whatever order the switches were set in.
pub proof fn lemma_held_after_set(s: SessionMods, mk: ModKey, v: bool)
    ensures
        forall|m: ModKey| #[trigger]
            s.with(mk, v).held_spec().contains(m) <==> if m == mk {
                v
            } else {
                s.has(m)
            },
        forall|i: int, j: int|
            0 <= i < j < s.with(mk, v).held_spec().len() ==> mod_rank(
                #[trigger] s.with(mk, v).held_spec()[i],
            ) < mod_rank(#[trigger] s.with(mk, v).held_spec()[j]),
{
    lemma_held_spec(s.with(mk, v));
    lemma_held_below_sorted(s.with(mk, v), 10);
}

/// A modifier is in the held list exactly when it is held, the list names
/// no modifier twice, and it is empty exactly when nothing is held.
pub proof fn lemma_held_spec(s: SessionMods)
    ensures
        forall|m: ModKey| #[trigger] s.held_spec().contains(m) <==> s.has(m),
        s.held_spec().no_duplicates(),
        s.held_spec().len() == 0 <==> s == no_mods(),
{
    lemma_held_below(s, 10);
    if s.held_spec().len() == 0 {
        assert(!s.has(ModKey::Fn) && !s.has(ModKey::LeftCommand) && !s.has(ModKey::RightCommand)
            && !s.has(ModKey::LeftOption) && !s.has(ModKey::RightOption));
        assert(!s.has(ModKey::LeftControl) && !s.has(ModKey::RightControl) && !s.has(
            ModKey::LeftShift,
        ) && !s.has(ModKey::RightShift) && !s.has(ModKey::CapsLock));
    }
}


/// What the push-to-talk side remembers between events.
#[derive(Debug)]
pub struct MonitorState {
    /// The modifiers held, as of the last event.
    pub held_mods: Vec<ModKey>,
    /// Whether the binding's key is down.
    pub key_down: bool,
    /// Whether the chord is on, i.e. `Start` was asked and `Stop` not yet.
    pub chord_active: bool,
}

/// Whether a binding is held: it has at least one part, every modifier
/// of it is held, and its key (if any) is down.
pub open spec fn bind_satisfied_spec(bind: ShortcutView, held: Seq<ModKey>, key_down: bool) -> bool {
    &&& !(bind.mods.len() == 0 && bind.key is None)
    &&& forall|i: int| 0 <= i < bind.mods.len() ==> held.contains(#[trigger] bind.mods[i])
    &&& (bind.key is Some ==> key_down)
}

/// Whether `held` contains `m`.
fn mods_contain(held: &Vec<ModKey>, m: ModKey) -> (r: bool)
    ensures
        r == held@.contains(m),
{
    let mut i: usize = 0;
    while i < held.len()
        invariant
            i <= held.len(),
            forall|j: int| 0 <= j < i ==> held@[j] != m,
        decreases held.len() - i,
    {
        if held[i] == m {
            return true;
        }
        i = i + 1;
    }
    false
}

/// Whether the binding is held in state `st`.
pub fn bind_satisfied(bind: &Shortcut, st: &MonitorState) -> (r: bool)
    ensures
        r == bind_satisfied_spec(bind@, st.held_mods@, st.key_down),
{
    if bind.mods.len() == 0 && bind.key.is_none() {
        return false;
    }
    let mut i: usize = 0;
    while i < bind.mods.len()
        invariant
            i <= bind.mods.len(),
            forall|j: int| 0 <= j < i ==> st.held_mods@.contains(#[trigger] bind.mods@[j]),
        decreases bind.mods.len() - i,
    {
        if !mods_contain(&st.held_mods, bind.mods[i]) {
            return false;
        }
        i = i + 1;
    }
    if bind.key.is_some() && !st.key_down {
        return false;
    }
    true
}

/// Whether modifier `mk` is held after a flags-changed event with
/// keycode `code` and flag bits `flags`, given the held switches `sess`
/// before it. An event of `mk`'s own key presses or releases it as the
/// flag bit says; an event of another key releases it when the shared
/// bit is clear and otherwise leaves it as it was.
pub open spec fn modkey_pressed_spec(mk: ModKey, flags: u64, code: u16, sess: SessionMods) -> bool {
    let bit_set = flags_contain(flags, flag_bit_spec(mk));
    if modkey_of_keycode(code) == Some(mk) {
        bit_set
    } else if !bit_set {
        false
    } else {
        sess.has(mk)
    }
}

/// Whether modifier `mk` is held after a flags-changed event.
pub fn is_modkey_pressed(mk: ModKey, flags: u64, code: u16, sess: &SessionMods) -> (r: bool)
    ensures
        r == modkey_pressed_spec(mk, flags, code, *sess),
{
    let bit = modkey_flag_bit(mk);
    let bit_set = flags & bit == bit;
    let event_is_this_side = match keycode_to_modkey(code) {
        Some(k) => k == mk,
        None => false,
    };
    if event_is_this_side {
        return bit_set;
    }
    if !bit_set {
        return false;
    }
    sess.contains(mk)
}


/// `pending` with each modifier of `held` appended, in order, unless it
/// is already there.
pub open spec fn add_missing(pending: Seq<ModKey>, held: Seq<ModKey>) -> Seq<ModKey>
    decreases held.len(),
{
    if held.len() == 0 {
        pending
    } else {
        let q = add_missing(pending, held.drop_last());
        if q.contains(held.last()) {
            q
        } else {
            q.push(held.last())
        }
    }
}

/// The abstract content of a `RecordingBuf`.
pub struct RecordingBufView {
    pub pending_mods: Seq<ModKey>,
    pub pending_key: Option<u16>,
    pub pending_key_label: Option<Seq<char>>,
    pub non_mod_down: bool,
    pub saw_any_press: bool,
}

/// The recording side: gathers every modifier and the first non-modifier
/// key the user touches, and commits once everything is released, so the
/// user may roll fingers (press cmd, then opt, release cmd while still
/// holding opt) before the shortcut is taken.
#[derive(Debug)]
pub struct RecordingBuf {
    pending_mods: Vec<ModKey>,
    pending_key: Option<u16>,
    pending_key_label: Option<String>,
    non_mod_down: bool,
    saw_any_press: bool,
}

impl View for RecordingBuf {
    type V = RecordingBufView;

    closed spec fn view(&self) -> RecordingBufView {
        RecordingBufView {
            pending_mods: self.pending_mods@,
            pending_key: self.pending_key,
            pending_key_label: self.pending_key_label.deep_view(),
            non_mod_down: self.non_mod_down,
            saw_any_press: self.saw_any_press,
        }
    }
}

/// The empty recording buffer.
pub open spec fn empty_buf() -> RecordingBufView {
    RecordingBufView {
        pending_mods: Seq::empty(),
        pending_key: None,
        pending_key_label: None,
        non_mod_down: false,
        saw_any_press: false,
    }
}

/// The view of an optional shortcut.
pub open spec fn opt_shortcut_view(s: Option<Shortcut>) -> Option<ShortcutView> {
    match s {
        Some(x) => Some(x@),
        None => None,
    }
}

/// One event fed to the recording buffer, with the held modifiers `sess`
/// after it and the label of the key for a key press: the buffer after
/// it, and the shortcut committed by it, if any.
pub open spec fn feed_spec(
    b: RecordingBufView,
    kind: KeyEventKind,
    code: u16,
    label: Option<Seq<char>>,
    sess: SessionMods,
) -> (RecordingBufView, Option<ShortcutView>) {
    let held = sess.held_spec();
    let mods = add_missing(b.pending_mods, held);
    let saw = b.saw_any_press || held.len() > 0;
    let first_key = b.pending_key is None;
    let key = if kind == KeyEventKind::KeyDown && first_key {
        Some(code)
    } else {
        b.pending_key
    };
    let lab = if kind == KeyEventKind::KeyDown && first_key {
        label
    } else {
        b.pending_key_label
    };
    let down = if kind == KeyEventKind::KeyDown {
        true
    } else if kind == KeyEventKind::KeyUp {
        false
    } else {
        b.non_mod_down
    };
    let saw = saw || kind == KeyEventKind::KeyDown;
    if saw && held.len() == 0 && !down {
        (
            RecordingBufView {
                pending_mods: Seq::empty(),
                pending_key: None,
                pending_key_label: None,
                non_mod_down: down,
                saw_any_press: saw,
            },
            if mods.len() == 0 && key is None {
                None
            } else {
                Some(ShortcutView { mods, key, key_label: lab })
            },
        )
    } else {
        (
            RecordingBufView {
                pending_mods: mods,
                pending_key: key,
                pending_key_label: lab,
                non_mod_down: down,
                saw_any_press: saw,
            },
            None,
        )
    }
}

impl Default for RecordingBuf {
    fn default() -> (r: RecordingBuf)
        ensures
            r@ == empty_buf(),
    {
        RecordingBuf {
            pending_mods: Vec::new(),
            pending_key: None,
            pending_key_label: None,
            non_mod_down: false,
            saw_any_press: false,
        }
    }
}

impl RecordingBuf {
    /// Feeds one event (see `feed_spec`).
    pub fn feed(
        &mut self,
        kind: KeyEventKind,
        code: u16,
        key_label: Option<String>,
        sess: SessionMods,
    ) -> (r: Option<Shortcut>)
        ensures
            (final(self)@, opt_shortcut_view(r)) == feed_spec(
                old(self)@,
                kind,
                code,
                key_label.deep_view(),
                sess,
            ),
    {
        let held = sess.held();
        let ghost p0 = self.pending_mods@;
        if held.len() > 0 {
            self.saw_any_press = true;
        }
        let mut i: usize = 0;
        while i < held.len()
            invariant
                i <= held.len(),
                self.pending_mods@ == add_missing(p0, held@.take(i as int)),
                self.saw_any_press == (old(self).saw_any_press || held@.len() > 0),
                self.pending_key == old(self).pending_key,
                self.pending_key_label == old(self).pending_key_label,
                self.non_mod_down == old(self).non_mod_down,
            decreases held.len() - i,
        {
            let m = held[i];
            assert(held@.take(i as int + 1).drop_last() =~= held@.take(i as int));
            if !mods_contain(&self.pending_mods, m) {
                self.pending_mods.push(m);
            }
            i = i + 1;
        }
        assert(held@.take(held@.len() as int) =~= held@);
        if kind == KeyEventKind::KeyDown {
            if self.pending_key.is_none() {
                self.pending_key = Some(code);
                self.pending_key_label = key_label;
            }
            self.non_mod_down = true;
            self.saw_any_press = true;
        } else if kind == KeyEventKind::KeyUp {
            self.non_mod_down = false;
        }
        if self.saw_any_press && held.len() == 0 && !self.non_mod_down {
            let mut mods: Vec<ModKey> = Vec::new();
            std::mem::swap(&mut mods, &mut self.pending_mods);
            let key = self.pending_key.take();
            let label = self.pending_key_label.take();
            if mods.len() == 0 && key.is_none() {
                return None;
            }
            return Some(Shortcut { mods, key, key_label: label });
        }
        None
    }
}


/// The readable name of a key whose character is blank or ambiguous.
pub open spec fn special_name_spec(label: Seq<char>, code: u16) -> Option<Seq<char>> {
    if code == 0x31 {
        Some("Space"@)
    } else if code == 0x24 {
        Some("Return"@)
    } else if code == 0x30 {
        Some("Tab"@)
    } else if code == 0x35 {
        Some("Esc"@)
    } else if code == 0x33 {
        Some("Delete"@)
    } else if code == 0x7B {
        Some("←"@)
    } else if code == 0x7C {
        Some("→"@)
    } else if code == 0x7D {
        Some("↓"@)
    } else if code == 0x7E {
        Some("↑"@)
    } else if label == " "@ {
        Some("Space"@)
    } else {
        None
    }
}

/// The arrow keys have fixed, distinct names whatever they typed: left
/// arrow (0x7B) `←`, right arrow (0x7C) `→`, down arrow (0x7D) `↓`, up
/// arrow (0x7E) `↑`; so a pressed arrow key whose typed text is printable
/// is labelled with its own arrow.
pub proof fn lemma_arrow_key_names(label: Seq<char>, upper: Seq<char>)
    ensures
        special_name_spec(label, 0x7B) == Some("←"@),
        special_name_spec(label, 0x7C) == Some("→"@),
        special_name_spec(label, 0x7D) == Some("↓"@),
        special_name_spec(label, 0x7E) == Some("↑"@),
        printable(upper) ==> label_from_upper_spec(0x7B, Some(upper)) == "←"@,
        printable(upper) ==> label_from_upper_spec(0x7C, Some(upper)) == "→"@,
        printable(upper) ==> label_from_upper_spec(0x7D, Some(upper)) == "↓"@,
        printable(upper) ==> label_from_upper_spec(0x7E, Some(upper)) == "↑"@,
{
}

/// The readable name of a key whose character is blank or ambiguous.
pub fn special_name(label: &str, code: u16) -> (r: Option<String>)
    ensures
        opt_string_view(r) == special_name_spec(label@, code),
{
    if code == 0x31 {
        Some("Space".to_owned())
    } else if code == 0x24 {
        Some("Return".to_owned())
    } else if code == 0x30 {
        Some("Tab".to_owned())
    } else if code == 0x35 {
        Some("Esc".to_owned())
    } else if code == 0x33 {
        Some("Delete".to_owned())
    } else if code == 0x7B {
        Some("←".to_owned())
    } else if code == 0x7C {
        Some("→".to_owned())
    } else if code == 0x7D {
        Some("↓".to_owned())
    } else if code == 0x7E {
        Some("↑".to_owned())
    } else if str_eq(label, " ") {
        Some("Space".to_owned())
    } else {
        None
    }
}

/// The view of an optional string.
pub open spec fn opt_string_view(s: Option<String>) -> Option<Seq<char>> {
    match s {
        Some(x) => Some(x@),
        None => None,
    }
}

/// Whether no char of `s` is a control char.
pub open spec fn printable(s: Seq<char>) -> bool {
    forall|i: int| 0 <= i < s.len() ==> !is_control_char(#[trigger] s[i])
}

/// The label of a key from the uppercase form of what it typed (`None`
/// when it typed nothing): the key's readable name when it has one, else
/// that text; `"key0x"` and the two-digit hex keycode when there is no
/// text or it is not printable.
pub open spec fn label_from_upper_spec(code: u16, upper: Option<Seq<char>>) -> Seq<char> {
    match upper {
        Some(u) if printable(u) => match special_name_spec(u, code) {
            Some(n) => n,
            None => u,
        },
        _ => "key0x"@ + hex2_spec(code as nat),
    }
}

/// The uppercase form of what a key typed, when it typed anything.
pub open spec fn typed_upper(chars: Option<Seq<char>>) -> Option<Seq<char>> {
    match chars {
        Some(raw) if raw.len() > 0 => Some(uppercase_of(raw)),
        _ => None,
    }
}

/// The label of a pressed key, from the characters it typed (ignoring
/// modifiers): their uppercase form, or the key's readable name when it
/// has one; `"key0x"` and the two-digit hex keycode when the key typed
/// nothing printable.
pub open spec fn key_label_spec(code: u16, chars: Option<Seq<char>>) -> Seq<char> {
    label_from_upper_spec(code, typed_upper(chars))
}

/// Whether no char of `s` is a control char.
fn all_printable(s: &str) -> (r: bool)
    ensures
        r == printable(s@),
{
    let cs = chars_of(s);
    let mut i: usize = 0;
    while i < cs.len()
        invariant
            i <= cs@.len(),
            cs@ == s@,
            forall|j: int| 0 <= j < i ==> !is_control_char(#[trigger] s@[j]),
        decreases cs@.len() - i,
    {
        if char_is_control(cs[i]) {
            return false;
        }
        i = i + 1;
    }
    true
}

/// The label of a pressed key (see `key_label_spec`); `chars` is what the
/// key typed, ignoring modifiers, if the system reported anything.
pub fn keycode_label(code: u16, chars: Option<&str>) -> (r: String)
    ensures
        r@ == key_label_spec(code, opt_str_view(chars)),
{
    let upper = match chars {
        Some(raw) => if raw.is_empty() {
            None
        } else {
            Some(str_to_uppercase(raw))
        },
        None => None,
    };
    match upper {
        Some(u) => label_from_upper(code, Some(u.as_str())),
        None => label_from_upper(code, None),
    }
}

/// The label of a key from the uppercase form of what it typed (see
/// `label_from_upper_spec`).
pub fn label_from_upper(code: u16, upper: Option<&str>) -> (r: String)
    ensures
        r@ == label_from_upper_spec(code, opt_str_view(upper)),
{
    if let Some(u) = upper {
        if all_printable(u) {
            return match special_name(u, code) {
                Some(n) => n,
                None => u.to_owned(),
            };
        }
    }
    let mut out = "key0x".to_owned();
    let hex = to_hex2(code);
    push_str(&mut out, hex.as_str());
    out
}

/// The view of an optional string slice.
pub open spec fn opt_str_view(s: Option<&str>) -> Option<Seq<char>> {
    match s {
        Some(x) => Some(x@),
        None => None,
    }
}


/// What the engine asks of its caller after an event.
#[derive(Debug)]
pub enum EngineAction {
    /// Nothing to do.
    Nothing,
    /// Send this edge to the pipeline.
    Trigger(Trigger),
    /// Recording ended: with the new shortcut, or `None` when cancelled.
    Recorded(Option<Shortcut>),
}

/// The abstract content of an `EngineAction`.
pub enum ActionView {
    Nothing,
    Trigger(Trigger),
    Recorded(Option<ShortcutView>),
}

impl View for EngineAction {
    type V = ActionView;

    open spec fn view(&self) -> ActionView {
        match self {
            EngineAction::Nothing => ActionView::Nothing,
            EngineAction::Trigger(t) => ActionView::Trigger(*t),
            EngineAction::Recorded(s) => ActionView::Recorded(opt_shortcut_view(*s)),
        }
    }
}

/// The abstract state of a `ShortcutEngine`.
pub struct EngineView {
    pub binding: ShortcutView,
    pub held_mods: Seq<ModKey>,
    pub key_down: bool,
    pub chord_active: bool,
    pub session: SessionMods,
    pub buf: RecordingBufView,
    pub recording: bool,
}

/// The held switches after an event: a flags-changed event of a modifier
/// key sets that key's switch as `modkey_pressed_spec` says.
pub open spec fn session_after(
    sess: SessionMods,
    kind: KeyEventKind,
    code: u16,
    flags: u64,
) -> SessionMods {
    match modkey_of_keycode(code) {
        Some(mk) if kind == KeyEventKind::FlagsChanged => sess.with(
            mk,
            modkey_pressed_spec(mk, flags, code, sess),
        ),
        _ => sess,
    }
}

/// Whether the binding's key is down after an event.
pub open spec fn key_down_after(e: EngineView, kind: KeyEventKind, code: u16) -> bool {
    match e.binding.key {
        Some(want) => if kind == KeyEventKind::KeyDown && code == want {
            true
        } else if kind == KeyEventKind::KeyUp && code == want {
            false
        } else {
            e.key_down
        },
        None => e.key_down,
    }
}

/// An event while recording: Escape cancels; any other event feeds the
/// buffer (a key press with its label), and a committed shortcut ends
/// the recording.
pub open spec fn record_step(
    e: EngineView,
    kind: KeyEventKind,
    code: u16,
    chars: Option<Seq<char>>,
) -> (EngineView, ActionView) {
    if kind == KeyEventKind::KeyDown && code == KVK_ESCAPE {
        (EngineView { buf: empty_buf(), recording: false, ..e }, ActionView::Recorded(None))
    } else {
        let label = if kind == KeyEventKind::KeyDown {
            Some(key_label_spec(code, chars))
        } else {
            None
        };
        let (b2, captured) = feed_spec(e.buf, kind, code, label, e.session);
        match captured {
            Some(sc) => (
                EngineView { buf: empty_buf(), recording: false, ..e },
                ActionView::Recorded(Some(sc)),
            ),
            None => (EngineView { buf: b2, ..e }, ActionView::Nothing),
        }
    }
}

/// A push-to-talk event: the chord turns on (asking `Start`) when the
/// binding becomes held, and off (asking `Stop`) when it stops being held.
pub open spec fn ptt_step(e: EngineView, kind: KeyEventKind, code: u16) -> (EngineView, ActionView) {
    let held = e.session.held_spec();
    let down = key_down_after(e, kind, code);
    let should = bind_satisfied_spec(e.binding, held, down);
    let e2 = EngineView { held_mods: held, key_down: down, ..e };
    if should && !e.chord_active {
        (EngineView { chord_active: true, ..e2 }, ActionView::Trigger(Trigger::Start))
    } else if !should && e.chord_active {
        (EngineView { chord_active: false, ..e2 }, ActionView::Trigger(Trigger::Stop))
    } else {
        (e2, ActionView::Nothing)
    }
}

/// One keyboard event: the engine's state after it and what it asks.
/// `chars` is what a key press typed, ignoring modifiers. Other events
/// change nothing; a flags-changed event first updates the held switches.
pub open spec fn step_spec(
    e: EngineView,
    kind: KeyEventKind,
    code: u16,
    flags: u64,
    chars: Option<Seq<char>>,
) -> (EngineView, ActionView) {
    if kind == KeyEventKind::Other {
        (e, ActionView::Nothing)
    } else {
        let e1 = EngineView { session: session_after(e.session, kind, code, flags), ..e };
        if e.recording {
            record_step(e1, kind, code, chars)
        } else {
            ptt_step(e1, kind, code)
        }
    }
}

/// The engine's invariant: the modifiers gathered while recording name
/// no modifier twice.
pub open spec fn engine_wf(e: EngineView) -> bool {
    e.buf.pending_mods.no_duplicates()
}

/// The push-to-talk and shortcut-recording state machine.
#[derive(Debug)]
pub struct ShortcutEngine {
    binding: Shortcut,
    monitor: MonitorState,
    session: SessionMods,
    buf: RecordingBuf,
    recording: bool,
}

impl View for ShortcutEngine {
    type V = EngineView;

    closed spec fn view(&self) -> EngineView {
        EngineView {
            binding: self.binding@,
            held_mods: self.monitor.held_mods@,
            key_down: self.monitor.key_down,
            chord_active: self.monitor.chord_active,
            session: self.session,
            buf: self.buf@,
            recording: self.recording,
        }
    }
}

impl ShortcutEngine {
    /// The modifiers gathered while recording name no modifier twice.
    #[verifier::type_invariant]
    spec fn inv(self) -> bool {
        engine_wf(self@)
    }

    /// An engine bound to `binding`, with nothing held and no recording.
    pub fn new(binding: Shortcut) -> (r: ShortcutEngine)
        ensures
            r@.binding == binding@,
            r@.held_mods == Seq::<ModKey>::empty(),
            !r@.key_down,
            !r@.chord_active,
            r@.session == no_mods(),
            r@.buf == empty_buf(),
            !r@.recording,
            engine_wf(r@),
    {
        ShortcutEngine {
            binding,
            monitor: MonitorState { held_mods: Vec::new(), key_down: false, chord_active: false },
            session: SessionMods::default(),
            buf: RecordingBuf::default(),
            recording: false,
        }
    }

    /// The current binding.
    pub fn binding(&self) -> (r: &Shortcut)
        ensures
            r@ == self@.binding,
    {
        &self.binding
    }

    /// Whether a new shortcut is being recorded.
    pub fn is_recording(&self) -> (r: bool)
        ensures
            r == self@.recording,
    {
        self.recording
    }

    /// Whether the chord is on.
    pub fn is_chord_active(&self) -> (r: bool)
        ensures
            r == self@.chord_active,
    {
        self.monitor.chord_active
    }

    /// Replaces the binding. The chord and the key state start over, so
    /// the new binding fires only once all its parts are pressed.
    pub fn set_binding(&mut self, new: Shortcut)
        ensures
            final(self)@ == (EngineView {
                binding: new@,
                key_down: false,
                chord_active: false,
                ..old(self)@
            }),
    {
        proof {
            use_type_invariant(&*self);
        }
        self.binding = new;
        self.monitor.chord_active = false;
        self.monitor.key_down = false;
    }

    /// Starts recording a new shortcut with an empty buffer. The held
    /// modifiers are kept: the user may already be holding one.
    pub fn start_recording(&mut self)
        ensures
            final(self)@ == (EngineView { buf: empty_buf(), recording: true, ..old(self)@ }),
    {
        self.buf = RecordingBuf::default();
        self.recording = true;
    }

    /// Handles one keyboard event (see `step_spec`).
    pub fn handle_event(
        &mut self,
        kind: KeyEventKind,
        code: u16,
        flags: u64,
        chars: Option<&str>,
    ) -> (r: EngineAction)
        ensures
            engine_wf(old(self)@),
            (final(self)@, r@) == step_spec(old(self)@, kind, code, flags, opt_str_view(chars)),
            engine_wf(final(self)@),
    {
        proof {
            use_type_invariant(&*self);
        }
        if kind == KeyEventKind::Other {
            return EngineAction::Nothing;
        }
        self.update_session(kind, code, flags);
        if self.recording {
            self.record_event(kind, code, chars)
        } else {
            self.ptt_event(kind, code)
        }
    }

    fn update_session(&mut self, kind: KeyEventKind, code: u16, flags: u64)
        ensures
            final(self)@ == (EngineView {
                session: session_after(old(self)@.session, kind, code, flags),
                ..old(self)@
            }),
    {
        proof {
            use_type_invariant(&*self);
        }
        if kind == KeyEventKind::FlagsChanged {
            if let Some(mk) = keycode_to_modkey(code) {
                let held_now = is_modkey_pressed(mk, flags, code, &self.session);
                let mut sess = self.session;
                sess.set(mk, held_now);
                self.session = sess;
            }
        }
    }

    fn record_event(&mut self, kind: KeyEventKind, code: u16, chars: Option<&str>) -> (r: EngineAction)
        requires
            engine_wf(old(self)@),
        ensures
            (final(self)@, r@) == record_step(old(self)@, kind, code, opt_str_view(chars)),
            engine_wf(final(self)@),
    {
        proof {
            use_type_invariant(&*self);
        }
        if kind == KeyEventKind::KeyDown && code == KVK_ESCAPE {
            self.recording = false;
            self.buf = RecordingBuf::default();
            return EngineAction::Recorded(None);
        }
        let label = if kind == KeyEventKind::KeyDown {
            Some(keycode_label(code, chars))
        } else {
            None
        };
        proof {
            lemma_add_missing_no_duplicates(self.buf@.pending_mods, self.session.held_spec());
        }
        let mut buf = RecordingBuf::default();
        std::mem::swap(&mut buf, &mut self.buf);
        let captured = buf.feed(kind, code, label, self.session);
        self.buf = buf;
        match captured {
            Some(shortcut) => {
                self.recording = false;
                self.buf = RecordingBuf::default();
                EngineAction::Recorded(Some(shortcut))
            },
            None => EngineAction::Nothing,
        }
    }

    #[verifier::spinoff_prover]
    fn ptt_event(&mut self, kind: KeyEventKind, code: u16) -> (r: EngineAction)
        ensures
            (final(self)@, r@) == ptt_step(old(self)@, kind, code),
    {
        proof {
            use_type_invariant(&*self);
        }
        self.monitor.held_mods = self.session.held();
        if let Some(want) = self.binding.key {
            if kind == KeyEventKind::KeyDown && code == want {
                self.monitor.key_down = true;
            } else if kind == KeyEventKind::KeyUp && code == want {
                self.monitor.key_down = false;
            }
        }
        let should_be_active = bind_satisfied(&self.binding, &self.monitor);
        if should_be_active && !self.monitor.chord_active {
            self.monitor.chord_active = true;
            EngineAction::Trigger(Trigger::Start)
        } else if !should_be_active && self.monitor.chord_active {
            self.monitor.chord_active = false;
            EngineAction::Trigger(Trigger::Stop)
        } else {
            EngineAction::Nothing
        }
    }
}

/// Appending the missing modifiers keeps a list free of repeats, and
/// every appended modifier ends up in it.
pub proof fn lemma_add_missing_no_duplicates(p: Seq<ModKey>, h: Seq<ModKey>)
    requires
        p.no_duplicates(),
    ensures
        add_missing(p, h).no_duplicates(),
        forall|m: ModKey| #[trigger]
            add_missing(p, h).contains(m) <==> (p.contains(m) || h.contains(m)),
    decreases h.len(),
{
    if h.len() > 0 {
        lemma_add_missing_no_duplicates(p, h.drop_last());
        let q = add_missing(p, h.drop_last());
        let r = add_missing(p, h);
        assert forall|m: ModKey| #[trigger] r.contains(m) <==> (p.contains(m) || h.contains(m)) by {
            if h.contains(m) && !h.drop_last().contains(m) {
                let i = choose|i: int| 0 <= i < h.len() && h[i] == m;
                if i < h.len() - 1 {
                    assert(h.drop_last()[i] == m);
                }
                assert(m == h.last());
                if !q.contains(m) {
                    assert(r[q.len() as int] == m);
                }
            }
            if h.drop_last().contains(m) {
                let i = choose|i: int| 0 <= i < h.drop_last().len() && h.drop_last()[i] == m;
                assert(h[i] == m);
            }
            if r.contains(m) && !q.contains(m) {
                let i = choose|i: int| 0 <= i < r.len() && r[i] == m;
                if i < q.len() {
                    assert(q[i] == m);
                }
                assert(h[h.len() - 1] == m);
            }
            if q.contains(m) {
                let i = choose|i: int| 0 <= i < q.len() && q[i] == m;
                assert(r[i] == m);
            }
        }
    }
}


/// `Start` and `Stop` alternate: `Start` is asked only when the chord was
/// off and turns it on, `Stop` only when it was on and turns it off, and
/// any other event leaves the chord as it was.
pub proof fn lemma_triggers_alternate(
    e: EngineView,
    kind: KeyEventKind,
    code: u16,
    flags: u64,
    chars: Option<Seq<char>>,
)
    ensures
        ({
            let (e2, a) = step_spec(e, kind, code, flags, chars);
            &&& a == ActionView::Trigger(Trigger::Start) ==> !e.chord_active && e2.chord_active
            &&& a == ActionView::Trigger(Trigger::Stop) ==> e.chord_active && !e2.chord_active
            &&& !(a is Trigger) ==> e2.chord_active == e.chord_active
        }),
{
}

/// One keyboard event as the engine gets it: kind, keycode, modifier
/// flags, and what a key press typed.
pub type KeyEvent = (KeyEventKind, u16, u64, Option<Seq<char>>);

/// The engine after a run of events, and what it asked after each.
pub open spec fn run_spec(e: EngineView, evs: Seq<KeyEvent>) -> (EngineView, Seq<ActionView>)
    decreases evs.len(),
{
    if evs.len() == 0 {
        (e, Seq::empty())
    } else {
        let (e1, acts) = run_spec(e, evs.drop_last());
        let ev = evs.last();
        let (e2, a) = step_spec(e1, ev.0, ev.1, ev.2, ev.3);
        (e2, acts.push(a))
    }
}

/// The edges among a run of actions, in order.
pub open spec fn edges_of(acts: Seq<ActionView>) -> Seq<Trigger>
    decreases acts.len(),
{
    if acts.len() == 0 {
        Seq::empty()
    } else {
        match acts.last() {
            ActionView::Trigger(t) => edges_of(acts.drop_last()).push(t),
            _ => edges_of(acts.drop_last()),
        }
    }
}

/// The edge at position `i` of an alternating run that begins with the
/// chord on (`active`) or off.
pub open spec fn alternating_edge(active: bool, i: int) -> Trigger {
    if (i % 2 == 0) != active {
        Trigger::Start
    } else {
        Trigger::Stop
    }
}

/// Over any run of events, the edges asked alternate: starting from an
/// idle chord the first is `Start`, then `Stop`, then `Start`, and so on
/// (from an active chord, `Stop` comes first), and the chord ends on
/// exactly when an odd number of edges turned it over.
pub proof fn lemma_edges_alternate_over_run(e: EngineView, evs: Seq<KeyEvent>)
    ensures
        ({
            let (e2, acts) = run_spec(e, evs);
            let edges = edges_of(acts);
            &&& acts.len() == evs.len()
            &&& forall|i: int| 0 <= i < edges.len() ==> #[trigger] edges[i] == alternating_edge(
                e.chord_active,
                i,
            )
            &&& e2.chord_active == (e.chord_active != (edges.len() % 2 == 1))
        }),
    decreases evs.len(),
{
    if evs.len() > 0 {
        lemma_edges_alternate_over_run(e, evs.drop_last());
        let (e1, acts1) = run_spec(e, evs.drop_last());
        let ev = evs.last();
        let (e2, a) = step_spec(e1, ev.0, ev.1, ev.2, ev.3);
        lemma_triggers_alternate(e1, ev.0, ev.1, ev.2, ev.3);
        let acts = acts1.push(a);
        assert(acts.drop_last() =~= acts1);
        let edges1 = edges_of(acts1);
        let edges = edges_of(acts);
        if a is Trigger {
            assert(edges == edges1.push(a->Trigger_0));
            assert forall|i: int| 0 <= i < edges.len() implies #[trigger] edges[i]
                == alternating_edge(e.chord_active, i) by {
                if i < edges1.len() {
                    assert(edges[i] == edges1[i]);
                }
            }
        } else {
            assert(edges == edges1);
        }
    }
}

/// Outside recording, after any keyboard event the chord is on exactly
/// when the binding is held: all its modifiers are held and its key, if
/// any, is down.
pub proof fn lemma_chord_follows_binding(
    e: EngineView,
    kind: KeyEventKind,
    code: u16,
    flags: u64,
    chars: Option<Seq<char>>,
)
    requires
        !e.recording,
        kind != KeyEventKind::Other,
    ensures
        ({
            let (e2, a) = step_spec(e, kind, code, flags, chars);
            &&& e2.held_mods == e2.session.held_spec()
            &&& e2.chord_active == bind_satisfied_spec(e2.binding, e2.held_mods, e2.key_down)
        }),
{
}

/// A binding with neither modifiers nor key never starts dictation.
pub proof fn lemma_empty_binding_never_starts(
    e: EngineView,
    kind: KeyEventKind,
    code: u16,
    flags: u64,
    chars: Option<Seq<char>>,
)
    requires
        e.binding.mods.len() == 0,
        e.binding.key is None,
    ensures
        step_spec(e, kind, code, flags, chars).1 != ActionView::Trigger(Trigger::Start),
{
}

/// While a shortcut is being recorded, no event starts or stops
/// dictation, and the binding and chord stay as they were.
pub proof fn lemma_recording_never_triggers(
    e: EngineView,
    kind: KeyEventKind,
    code: u16,
    flags: u64,
    chars: Option<Seq<char>>,
)
    requires
        e.recording,
    ensures
        ({
            let (e2, a) = step_spec(e, kind, code, flags, chars);
            &&& !(a is Trigger)
            &&& e2.chord_active == e.chord_active
            &&& e2.binding == e.binding
        }),
{
}

/// Escape cancels a recording: it ends with no shortcut and an empty
/// buffer.
pub proof fn lemma_escape_cancels(e: EngineView, flags: u64, chars: Option<Seq<char>>)
    requires
        e.recording,
    ensures
        ({
            let (e2, a) = step_spec(e, KeyEventKind::KeyDown, KVK_ESCAPE, flags, chars);
            &&& a == ActionView::Recorded(None)
            &&& !e2.recording
            &&& e2.buf == empty_buf()
        }),
{
}

/// A recorded shortcut has at least one part and names no modifier twice,
/// and recording is over once it is handed back.
pub proof fn lemma_recorded_shortcut_well_formed(
    e: EngineView,
    kind: KeyEventKind,
    code: u16,
    flags: u64,
    chars: Option<Seq<char>>,
)
    requires
        engine_wf(e),
    ensures
        ({
            let (e2, a) = step_spec(e, kind, code, flags, chars);
            a matches ActionView::Recorded(Some(sc)) ==> {
                &&& sc.mods.len() > 0 || sc.key is Some
                &&& sc.mods.no_duplicates()
                &&& !e2.recording
            }
        }),
{
    let e1 = EngineView { session: session_after(e.session, kind, code, flags), ..e };
    lemma_add_missing_no_duplicates(e.buf.pending_mods, e1.session.held_spec());
}


/// One event fed to the recording buffer: kind, keycode, the label of a
/// pressed key, and the held modifiers after it.
pub type FedEvent = (KeyEventKind, u16, Option<Seq<char>>, SessionMods);

/// The buffer after a run of fed events, and what each event committed.
pub open spec fn feed_run(b: RecordingBufView, evs: Seq<FedEvent>) -> (
    RecordingBufView,
    Seq<Option<ShortcutView>>,
)
    decreases evs.len(),
{
    if evs.len() == 0 {
        (b, Seq::empty())
    } else {
        let (b1, out) = feed_run(b, evs.drop_last());
        let ev = evs.last();
        let (b2, c) = feed_spec(b1, ev.0, ev.1, ev.2, ev.3);
        (b2, out.push(c))
    }
}

/// Every modifier held at some point of a run, in the order it was first
/// seen held.
pub open spec fn gathered_mods(evs: Seq<FedEvent>) -> Seq<ModKey>
    decreases evs.len(),
{
    if evs.len() == 0 {
        Seq::empty()
    } else {
        add_missing(gathered_mods(evs.drop_last()), evs.last().3.held_spec())
    }
}

/// The keycode of the first key pressed in a run, if any.
pub open spec fn first_key_down(evs: Seq<FedEvent>) -> Option<u16>
    decreases evs.len(),
{
    if evs.len() == 0 {
        None
    } else {
        match first_key_down(evs.drop_last()) {
            Some(k) => Some(k),
            None => if evs.last().0 == KeyEventKind::KeyDown {
                Some(evs.last().1)
            } else {
                None
            },
        }
    }
}

proof fn lemma_feed_run_len(b: RecordingBufView, evs: Seq<FedEvent>)
    ensures
        feed_run(b, evs).1.len() == evs.len(),
    decreases evs.len(),
{
    if evs.len() > 0 {
        lemma_feed_run_len(b, evs.drop_last());
    }
}

/// The label given with the first key pressed in a run, if any.
pub open spec fn first_key_label(evs: Seq<FedEvent>) -> Option<Seq<char>>
    decreases evs.len(),
{
    if evs.len() == 0 {
        None
    } else {
        match first_key_down(evs.drop_last()) {
            Some(_) => first_key_label(evs.drop_last()),
            None => if evs.last().0 == KeyEventKind::KeyDown {
                evs.last().2
            } else {
                None
            },
        }
    }
}

/// Whether anything was pressed in a run: a modifier held after some
/// event, or a key press.
pub open spec fn pressed_in(evs: Seq<FedEvent>) -> bool
    decreases evs.len(),
{
    if evs.len() == 0 {
        false
    } else {
        pressed_in(evs.drop_last()) || evs.last().3.held_spec().len() > 0 || evs.last().0
            == KeyEventKind::KeyDown
    }
}

/// Whether a key is still down at the end of a run: the last key press or
/// release in it was a press.
pub open spec fn key_down_at_end(evs: Seq<FedEvent>) -> bool
    decreases evs.len(),
{
    if evs.len() == 0 {
        false
    } else if evs.last().0 == KeyEventKind::KeyDown {
        true
    } else if evs.last().0 == KeyEventKind::KeyUp {
        false
    } else {
        key_down_at_end(evs.drop_last())
    }
}

/// The gathered modifiers name no modifier twice, and name exactly those
/// held after some event of the run.
pub proof fn lemma_gathered_mods(evs: Seq<FedEvent>)
    ensures
        gathered_mods(evs).no_duplicates(),
        forall|m: ModKey| #[trigger]
            gathered_mods(evs).contains(m) <==> exists|i: int|
                0 <= i < evs.len() && #[trigger] evs[i].3.has(m),
    decreases evs.len(),
{
    if evs.len() > 0 {
        let init = evs.drop_last();
        let ev = evs.last();
        lemma_gathered_mods(init);
        lemma_add_missing_no_duplicates(gathered_mods(init), ev.3.held_spec());
        lemma_held_spec(ev.3);
        assert forall|m: ModKey| #[trigger]
            gathered_mods(evs).contains(m) <==> exists|i: int|
                0 <= i < evs.len() && #[trigger] evs[i].3.has(m) by {
            if gathered_mods(init).contains(m) {
                let i = choose|i: int| 0 <= i < init.len() && #[trigger] init[i].3.has(m);
                assert(evs[i] == init[i]);
            }
            if ev.3.has(m) {
                assert(evs[evs.len() - 1] == ev);
            }
            if exists|i: int| 0 <= i < evs.len() && #[trigger] evs[i].3.has(m) {
                let i = choose|i: int| 0 <= i < evs.len() && #[trigger] evs[i].3.has(m);
                if i < init.len() {
                    assert(init[i] == evs[i]);
                }
            }
        }
    } else {
        assert(gathered_mods(evs) =~= Seq::<ModKey>::empty());
    }
}

/// A run in which something was pressed gathered a modifier or a key.
proof fn lemma_pressed_gathers(evs: Seq<FedEvent>)
    ensures
        pressed_in(evs) ==> gathered_mods(evs).len() > 0 || first_key_down(evs) is Some,
    decreases evs.len(),
{
    if evs.len() > 0 {
        let init = evs.drop_last();
        let ev = evs.last();
        lemma_pressed_gathers(init);
        lemma_gathered_mods(init);
        lemma_gathered_mods(evs);
        lemma_held_spec(ev.3);
        if gathered_mods(init).len() > 0 {
            let m = gathered_mods(init)[0];
            assert(gathered_mods(init).contains(m));
            let i = choose|i: int| 0 <= i < init.len() && #[trigger] init[i].3.has(m);
            assert(evs[i] == init[i]);
            assert(gathered_mods(evs).contains(m));
        }
        if ev.3.held_spec().len() > 0 {
            let m = ev.3.held_spec()[0];
            assert(ev.3.held_spec().contains(m));
            assert(evs[evs.len() - 1] == ev);
            assert(gathered_mods(evs).contains(m));
        }
    }
}

/// From an empty buffer, as long as nothing was committed, the buffer
/// holds the gathered modifiers, the first key with its label, whether a
/// key is down, and whether anything was pressed.
proof fn lemma_feed_run_state(evs: Seq<FedEvent>)
    requires
        forall|i: int| 0 <= i < evs.len() ==> (#[trigger] feed_run(empty_buf(), evs).1[i]) is None,
    ensures
        feed_run(empty_buf(), evs).0.pending_mods == gathered_mods(evs),
        feed_run(empty_buf(), evs).0.pending_key == first_key_down(evs),
        feed_run(empty_buf(), evs).0.pending_key_label == first_key_label(evs),
        feed_run(empty_buf(), evs).0.non_mod_down == key_down_at_end(evs),
        feed_run(empty_buf(), evs).0.saw_any_press == pressed_in(evs),
    decreases evs.len(),
{
    if evs.len() > 0 {
        let init = evs.drop_last();
        let (b1, out1) = feed_run(empty_buf(), init);
        lemma_feed_run_len(empty_buf(), init);
        let ev = evs.last();
        let (b2, c) = feed_spec(b1, ev.0, ev.1, ev.2, ev.3);
        assert(feed_run(empty_buf(), evs).1 == out1.push(c));
        assert forall|i: int| 0 <= i < init.len() implies (#[trigger] feed_run(
            empty_buf(),
            init,
        ).1[i]) is None by {
            assert(feed_run(empty_buf(), evs).1[i] == out1[i]);
        }
        lemma_feed_run_state(init);
        assert(feed_run(empty_buf(), evs).1[init.len() as int] == c);
    }
}

/// Recording a shortcut over a run of events from an empty buffer, with
/// no commit before the last event: the last event commits exactly when
/// something was pressed in the run, no modifier is held after it and no
/// key is down (the last key press or release was a release). The
/// shortcut then holds every modifier held at any point of the run (so
/// fingers may roll from one modifier to the next), each once, in the
/// order first seen, and the first key pressed with its label.
pub proof fn lemma_commit_gathers_run(evs: Seq<FedEvent>)
    requires
        evs.len() > 0,
        forall|i: int|
            0 <= i < evs.len() - 1 ==> (#[trigger] feed_run(empty_buf(), evs).1[i]) is None,
    ensures
        feed_run(empty_buf(), evs).1.len() == evs.len(),
        feed_run(empty_buf(), evs).1[evs.len() - 1] is Some <==> {
            &&& pressed_in(evs)
            &&& evs.last().3.held_spec().len() == 0
            &&& !key_down_at_end(evs)
        },
        feed_run(empty_buf(), evs).1[evs.len() - 1] matches Some(sc) ==> {
            &&& sc.mods == gathered_mods(evs)
            &&& sc.key == first_key_down(evs)
            &&& sc.key_label == first_key_label(evs)
            &&& sc.mods.no_duplicates()
            &&& forall|m: ModKey| #[trigger]
                sc.mods.contains(m) <==> exists|i: int|
                    0 <= i < evs.len() && #[trigger] evs[i].3.has(m)
        },
{
    let init = evs.drop_last();
    let (b1, out1) = feed_run(empty_buf(), init);
    lemma_feed_run_len(empty_buf(), init);
    lemma_feed_run_len(empty_buf(), evs);
    let ev = evs.last();
    let (b2, c) = feed_spec(b1, ev.0, ev.1, ev.2, ev.3);
    assert(feed_run(empty_buf(), evs).1 == out1.push(c));
    assert forall|i: int| 0 <= i < init.len() implies (#[trigger] feed_run(empty_buf(), init).1[i])
        is None by {
        assert(feed_run(empty_buf(), evs).1[i] == out1[i]);
    }
    lemma_feed_run_state(init);
    assert(feed_run(empty_buf(), evs).1[init.len() as int] == c);
    lemma_pressed_gathers(evs);
    lemma_gathered_mods(evs);
}

/// The recording buffer commits only on full release: a shortcut comes
/// back only from an event after which no modifier is held and no key is
/// down, and only once something was pressed.
pub proof fn lemma_commit_only_on_full_release(
    b: RecordingBufView,
    kind: KeyEventKind,
    code: u16,
    label: Option<Seq<char>>,
    sess: SessionMods,
)
    ensures
        feed_spec(b, kind, code, label, sess).1 is Some ==> {
            &&& sess.held_spec().len() == 0
            &&& kind != KeyEventKind::KeyDown
            &&& (kind == KeyEventKind::KeyUp || !b.non_mod_down)
            &&& b.saw_any_press
        },
{
}

} // verus!
