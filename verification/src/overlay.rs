//! The floating pill near the bottom of the screen, and what each status
//! event of the pipeline does to it: start and stop sounds, and the
//! pill's mode. Drawing it, and the live audio levels, are the caller's
//! work.

use vstd::prelude::*;

use crate::pipeline::{handle_outcome, AdapterCall, PipelineView, StatusEvent, Trigger};

verus! {

/// What the pill shows.
#[derive(Debug, Clone, Copy, PartialEq, Eq, Structural)]
pub enum OverlayMode {
    /// Ordered out.
    Hidden,
    /// Live audio-level bars.
    Recording,
    /// Animated dots while the transcript is made.
    Transcribing,
}

/// A short sound played on a status change.
#[derive(Debug, Clone, Copy, PartialEq, Eq, Structural)]
pub enum SoundCue {
    Start,
    Stop,
}

impl SoundCue {
    /// The system sound file of the cue.
    pub fn path(self) -> (r: &'static str)
        ensures
            r@ == match self {
                SoundCue::Start => "/System/Library/Sounds/Tink.aiff"@,
                SoundCue::Stop => "/System/Library/Sounds/Pop.aiff"@,
            },
    {
        match self {
            SoundCue::Start => "/System/Library/Sounds/Tink.aiff",
            SoundCue::Stop => "/System/Library/Sounds/Pop.aiff",
        }
    }
}

/// What the status display does for one event.
#[derive(Debug, Clone, Copy, PartialEq, Eq, Structural)]
pub struct StatusReaction {
    /// A sound to play.
    pub sound: Option<SoundCue>,
    /// The pill's new mode.
    pub mode: Option<OverlayMode>,
    /// Whether the event is an error to report in the log.
    pub log_error: bool,
}

/// What the status display does for `ev`: recording plays the start
/// sound and shows the level bars; stopping plays the stop sound;
/// transcribing shows the dots; idle hides the pill; an error is logged.
pub open spec fn reaction_spec(ev: StatusEvent) -> StatusReaction {
    match ev {
        StatusEvent::Recording => StatusReaction {
            sound: Some(SoundCue::Start),
            mode: Some(OverlayMode::Recording),
            log_error: false,
        },
        StatusEvent::Stopped => StatusReaction {
            sound: Some(SoundCue::Stop),
            mode: None,
            log_error: false,
        },
        StatusEvent::Transcribing => StatusReaction {
            sound: None,
            mode: Some(OverlayMode::Transcribing),
            log_error: false,
        },
        StatusEvent::Idle => StatusReaction {
            sound: None,
            mode: Some(OverlayMode::Hidden),
            log_error: false,
        },
        StatusEvent::Error(_) => StatusReaction { sound: None, mode: None, log_error: true },
    }
}

/// What the status display does for `ev`.
pub fn status_reaction(ev: &StatusEvent) -> (r: StatusReaction)
    ensures
        r == reaction_spec(*ev),
{
    match ev {
        StatusEvent::Recording => StatusReaction {
            sound: Some(SoundCue::Start),
            mode: Some(OverlayMode::Recording),
            log_error: false,
        },
        StatusEvent::Stopped => StatusReaction {
            sound: Some(SoundCue::Stop),
            mode: None,
            log_error: false,
        },
        StatusEvent::Transcribing => StatusReaction {
            sound: None,
            mode: Some(OverlayMode::Transcribing),
            log_error: false,
        },
        StatusEvent::Idle => StatusReaction {
            sound: None,
            mode: Some(OverlayMode::Hidden),
            log_error: false,
        },
        StatusEvent::Error(_) => StatusReaction { sound: None, mode: None, log_error: true },
    }
}

/// Whether entering `mode` drops the level bars, so that the next
/// recording starts from silence: every mode but `Recording` does.
pub fn mode_clears_levels(mode: OverlayMode) -> (r: bool)
    ensures
        r == (mode != OverlayMode::Recording),
{
    match mode {
        OverlayMode::Recording => false,
        _ => true,
    }
}


/// What the pill's panel does on a display tick.
#[derive(Debug, Clone, Copy, PartialEq, Eq, Structural)]
pub enum PanelAction {
    /// Leave the panel as it is.
    Nothing,
    /// Order the panel out.
    Hide,
    /// Place the panel at the bottom of the screen, bring it front, and
    /// redraw it.
    ShowAndRedraw,
    /// Redraw the panel in place.
    Redraw,
}

/// What the pill's panel does on a tick, given the mode and whether the
/// panel is on screen: hidden mode orders a visible panel out; the other
/// modes bring a hidden panel up and redraw it every tick.
pub fn panel_action(mode: OverlayMode, visible: bool) -> (r: PanelAction)
    ensures
        r == match mode {
            OverlayMode::Hidden => if visible {
                PanelAction::Hide
            } else {
                PanelAction::Nothing
            },
            _ => if visible {
                PanelAction::Redraw
            } else {
                PanelAction::ShowAndRedraw
            },
        },
{
    match mode {
        OverlayMode::Hidden => if visible {
            PanelAction::Hide
        } else {
            PanelAction::Nothing
        },
        _ => if visible {
            PanelAction::Redraw
        } else {
            PanelAction::ShowAndRedraw
        },
    }
}


/// After a release whose capture handed back audio, the pill goes away:
/// the last status event that the `Stop` edge publishes is `Idle`, which
/// hides the pill; only the delivery of the text may follow it.
pub proof fn lemma_release_hides_pill<S>(
    pre: PipelineView<S>,
    calls: Seq<AdapterCall<S>>,
    rec_after: bool,
    result: Result<(), crate::pipeline::PipelineError>,
)
    requires
        handle_outcome(pre, Trigger::Stop, calls, rec_after, result),
        pre.recording,
        calls[1] matches AdapterCall::CaptureStopped(r) && r is Ok,
        pre.streaming ==> pre.has_stream,
    ensures
        exists|i: int|
            0 <= i < calls.len() && calls[i] == AdapterCall::<S>::Published(StatusEvent::Idle) && (
            forall|j: int| i < j < calls.len() ==> !(#[trigger] calls[j] is Published)),
        reaction_spec(StatusEvent::Idle).mode == Some(OverlayMode::Hidden),
{
    let samples = calls[1]->CaptureStopped_0->Ok_0;
    if pre.streaming {
        let c = calls[2]->SessionSampleCount_0;
        if c + samples.len() < pre.min_samples {
            assert(calls[3] == AdapterCall::<S>::Published(StatusEvent::Idle));
        } else {
            let rest = calls.skip(5);
            if rest[0] == AdapterCall::<S>::Published(StatusEvent::Idle) {
                assert(calls[5] == rest[0]);
                assert forall|j: int| 5 < j < calls.len() implies !(#[trigger] calls[j] is Published) by {
                    assert(calls[j] == rest[j - 5]);
                }
            } else {
                assert(calls[6] == rest[1]);
            }
        }
    } else {
        if samples.len() < pre.min_samples {
            assert(calls[2] == AdapterCall::<S>::Published(StatusEvent::Idle));
        } else {
            let rest = calls.skip(4);
            if rest[0] == AdapterCall::<S>::Published(StatusEvent::Idle) {
                assert(calls[4] == rest[0]);
                assert forall|j: int| 4 < j < calls.len() implies !(#[trigger] calls[j] is Published) by {
                    assert(calls[j] == rest[j - 4]);
                }
            } else {
                assert(calls[5] == rest[1]);
            }
        }
    }
}

/// A start that succeeds shows the level bars with the start sound: its
/// last status event is `Recording`.
pub proof fn lemma_press_shows_pill<S>(
    pre: PipelineView<S>,
    calls: Seq<AdapterCall<S>>,
    rec_after: bool,
    result: Result<(), crate::pipeline::PipelineError>,
)
    requires
        handle_outcome(pre, Trigger::Start, calls, rec_after, result),
        !pre.recording,
        result is Ok,
    ensures
        calls[0] == AdapterCall::<S>::Published(StatusEvent::Recording),
        forall|j: int| 0 < j < calls.len() ==> !(#[trigger] calls[j] is Published),
        reaction_spec(StatusEvent::Recording) == (StatusReaction {
            sound: Some(SoundCue::Start),
            mode: Some(OverlayMode::Recording),
            log_error: false,
        }),
{
}

} // verus!
