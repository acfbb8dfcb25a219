//! The two permissions hush needs (microphone, and accessibility for the
//! global shortcut and the paste), and what the settings window shows
//! and offers for them. Probing and requesting them is the caller's work.

use vstd::prelude::*;

verus! {

/// The microphone permission.
#[derive(Debug, Clone, Copy, PartialEq, Eq, Structural)]
pub enum MicState {
    NotDetermined,
    Granted,
    Denied,
}

/// Both permissions.
#[derive(Debug, Clone, Copy, PartialEq, Eq, Structural)]
pub struct PermStatus {
    pub microphone: MicState,
    pub accessibility: bool,
}

impl PermStatus {
    /// Whether the microphone is granted.
    pub fn mic_granted(&self) -> (r: bool)
        ensures
            r == (self.microphone == MicState::Granted),
    {
        match self.microphone {
            MicState::Granted => true,
            _ => false,
        }
    }

    /// Whether both permissions are granted.
    pub fn all_granted(&self) -> (r: bool)
        ensures
            r == (self.microphone == MicState::Granted && self.accessibility),
    {
        self.mic_granted() && self.accessibility
    }
}

/// Whether the settings window opens at launch: when a permission is
/// missing, so the user can grant it.
pub fn maybe_show_settings_at_launch(status: &PermStatus) -> (r: bool)
    ensures
        r == !(status.microphone == MicState::Granted && status.accessibility),
{
    !status.all_granted()
}

/// The microphone status line.
pub fn mic_status_text(state: MicState) -> (r: &'static str)
    ensures
        r@ == match state {
            MicState::Granted => "✓  Granted"@,
            MicState::NotDetermined => "•  Not yet asked"@,
            MicState::Denied => "✗  Denied"@,
        },
{
    match state {
        MicState::Granted => "✓  Granted",
        MicState::NotDetermined => "•  Not yet asked",
        MicState::Denied => "✗  Denied",
    }
}

/// The status line of a yes/no permission.
pub fn perm_status_text(granted: bool) -> (r: &'static str)
    ensures
        r@ == if granted {
            "✓  Granted"@
        } else {
            "✗  Not granted"@
        },
{
    if granted {
        "✓  Granted"
    } else {
        "✗  Not granted"
    }
}

/// The microphone button: its title, and whether it is enabled (only
/// while the microphone is not granted).
pub fn mic_button(state: MicState) -> (r: (&'static str, bool))
    ensures
        r.0@ == match state {
            MicState::Granted => "Granted"@,
            MicState::NotDetermined => "Allow microphone"@,
            MicState::Denied => "Open System Settings…"@,
        },
        r.1 == (state != MicState::Granted),
{
    match state {
        MicState::Granted => ("Granted", false),
        MicState::NotDetermined => ("Allow microphone", true),
        MicState::Denied => ("Open System Settings…", true),
    }
}

/// A grant button: "Granted" once granted, "Waiting…" while waiting for
/// the user, else its idle title; enabled only when neither.
pub fn grant_button(granted: bool, waiting: bool, idle_title: &'static str) -> (r: (
    &'static str,
    bool,
))
    ensures
        r.0@ == if granted {
            "Granted"@
        } else if waiting {
            "Waiting…"@
        } else {
            idle_title@
        },
        r.1 == (!granted && !waiting),
{
    let title = if granted {
        "Granted"
    } else if waiting {
        "Waiting…"
    } else {
        idle_title
    };
    (title, !granted && !waiting)
}

/// What pressing the microphone button does.
#[derive(Debug, Clone, Copy, PartialEq, Eq, Structural)]
pub enum MicAction {
    /// Already granted: nothing.
    Nothing,
    /// Never asked: show the system prompt.
    Prompt,
    /// Denied before (the prompt will not show again): open the
    /// microphone pane of System Settings.
    OpenSettings,
}

/// What pressing the microphone button does in `state`.
pub fn grant_microphone_action(state: MicState) -> (r: MicAction)
    ensures
        r == match state {
            MicState::Granted => MicAction::Nothing,
            MicState::NotDetermined => MicAction::Prompt,
            MicState::Denied => MicAction::OpenSettings,
        },
{
    match state {
        MicState::Granted => MicAction::Nothing,
        MicState::NotDetermined => MicAction::Prompt,
        MicState::Denied => MicAction::OpenSettings,
    }
}

/// The System Settings address of the microphone privacy pane.
pub const MICROPHONE_PANE_URL: &'static str = "x-apple.systempreferences:com.apple.preference.security?Privacy_Microphone";

/// While the user grants accessibility in System Settings, the button
/// waits (for at most a timeout) instead of offering to open it again.
#[derive(Debug, Clone, Copy, PartialEq, Eq, Structural)]
pub struct AccessibilityWait {
    pub waiting: bool,
}

impl AccessibilityWait {
    /// Not waiting.
    pub fn new() -> (r: AccessibilityWait)
        ensures
            !r.waiting,
    {
        AccessibilityWait { waiting: false }
    }

    /// The user was sent to System Settings: wait.
    pub fn start(&mut self)
        ensures
            final(self).waiting,
    {
        self.waiting = true;
    }

    /// The wait timed out.
    pub fn timeout(&mut self)
        ensures
            !final(self).waiting,
    {
        self.waiting = false;
    }

    /// A fresh probe: once accessibility is granted the wait is over.
    /// Returns whether the wait ended here (so its timer is cancelled).
    pub fn observe(&mut self, accessibility: bool) -> (ended: bool)
        ensures
            ended == (accessibility && old(self).waiting),
            final(self).waiting == (old(self).waiting && !accessibility),
    {
        if accessibility && self.waiting {
            self.waiting = false;
            true
        } else {
            false
        }
    }
}

} // verus!
