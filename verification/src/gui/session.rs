//! The recording session of the front end: what the display shows and what the daemon is told.

use crate::gui::clipboard::{OutcomeView, PasteOutcome};
use crate::gui::text;
use crate::strings;
use vstd::prelude::*;
use vstd::string::*;

verus! {

/// What happens to a transcription.
#[derive(Clone, Copy, Debug, PartialEq, Eq, Structural)]
pub enum Mode {
    /// It is typed.
    Type,
    /// It is copied.
    Copy,
    /// It is typed; the recording stopped by itself.
    Auto,
}

/// Something that the session reacts to.
#[derive(Debug)]
pub enum AppAction {
    /// Start a recording, or stop the one that runs; `auto_stop` when its limit was reached.
    ToggleRecording { mode: Mode, auto_stop: bool },
    /// The limit of the recording was reached.
    AutoStop,
    CancelRecording,
    /// Show a message in a colour.
    OsdUpdate { text: String, color: String },
    OsdHide,
}

/// A command for the daemon.
#[derive(Clone, Copy, Debug, PartialEq, Eq, Structural)]
pub enum DaemonCommand {
    Start,
    /// Stop; the transcription is for this.
    Stop { mode: Mode },
    Cancel,
}

/// A change of the display.
#[derive(Debug)]
pub enum OsdChange {
    Unchanged,
    Show { text: String, color: String },
    Hide,
}

/// The values of an [`OsdChange`].
#[verifier::ext_equal]
pub enum OsdView {
    Unchanged,
    Show(Seq<char>, Seq<char>),
    Hide,
}

impl View for OsdChange {
    type V = OsdView;

    open spec fn view(&self) -> OsdView {
        match *self {
            OsdChange::Unchanged => OsdView::Unchanged,
            OsdChange::Show { text, color } => OsdView::Show(text@, color@),
            OsdChange::Hide => OsdView::Hide,
        }
    }
}

/// What an action leads to.
#[derive(Debug)]
pub struct Effects {
    pub osd: OsdChange,
    pub command: Option<DaemonCommand>,
    /// Whether the display is to be hidden after a second.
    pub hide_later: bool,
}

/// The session.
#[derive(Clone, Copy, Debug, PartialEq, Eq, Structural)]
pub struct GuiSession {
    pub recording: bool,
    /// What the transcription of the recording is for.
    pub mode: Mode,
}

/// The session after an action.
pub open spec fn after(s: GuiSession, action: AppAction) -> GuiSession {
    match action {
        AppAction::ToggleRecording { mode, .. } => if s.recording {
            GuiSession { recording: false, ..s }
        } else {
            GuiSession { recording: true, mode }
        },
        AppAction::AutoStop | AppAction::CancelRecording => GuiSession { recording: false, ..s },
        _ => s,
    }
}

/// The command that an action gives the daemon.
pub open spec fn command_for(s: GuiSession, action: AppAction) -> Option<DaemonCommand> {
    match action {
        AppAction::ToggleRecording { .. } => if s.recording {
            Some(DaemonCommand::Stop { mode: s.mode })
        } else {
            Some(DaemonCommand::Start)
        },
        AppAction::AutoStop => if s.recording {
            Some(DaemonCommand::Stop { mode: s.mode })
        } else {
            None
        },
        AppAction::CancelRecording => if s.recording {
            Some(DaemonCommand::Cancel)
        } else {
            None
        },
        _ => None,
    }
}

/// What an action does to the display. While recording, messages and hiding wait.
pub open spec fn osd_for(s: GuiSession, action: AppAction) -> OsdView {
    match action {
        AppAction::ToggleRecording { auto_stop, .. } => if !s.recording {
            OsdView::Show("● GRABANDO"@, "red"@)
        } else if auto_stop {
            OsdView::Show("⏳ LÍMITE ALCANZADO"@, "orange"@)
        } else {
            OsdView::Show("Procesando..."@, "orange"@)
        },
        AppAction::AutoStop => if s.recording {
            OsdView::Show("⏳ LÍMITE ALCANZADO"@, "orange"@)
        } else {
            OsdView::Unchanged
        },
        AppAction::CancelRecording => if s.recording {
            OsdView::Show("Cancelado"@, "gray"@)
        } else {
            OsdView::Unchanged
        },
        AppAction::OsdUpdate { text, color } => if s.recording {
            OsdView::Unchanged
        } else {
            OsdView::Show(text@, color@)
        },
        AppAction::OsdHide => if s.recording {
            OsdView::Unchanged
        } else {
            OsdView::Hide
        },
    }
}

fn show(text: &str, color: &str) -> (r: OsdChange)
    ensures
        r@ == OsdView::Show(text@, color@),
{
    OsdChange::Show { text: text.to_owned(), color: color.to_owned() }
}

impl GuiSession {
    /// A session in which nothing was recorded yet.
    pub fn new() -> (r: GuiSession)
        ensures
            !r.recording,
            r.mode == Mode::Type,
    {
        GuiSession { recording: false, mode: Mode::Type }
    }

    /// Reacts to an action.
    pub fn react(&mut self, action: &AppAction) -> (r: Effects)
        ensures
            *final(self) == after(*old(self), *action),
            r.osd@ == osd_for(*old(self), *action),
            r.command == command_for(*old(self), *action),
            r.hide_later == (old(self).recording && *action is CancelRecording),
    {
        match action {
            AppAction::ToggleRecording { mode, auto_stop } => {
                if !self.recording {
                    self.recording = true;
                    self.mode = *mode;
                    Effects {
                        osd: show("● GRABANDO", "red"),
                        command: Some(DaemonCommand::Start),
                        hide_later: false,
                    }
                } else {
                    self.recording = false;
                    let osd: OsdChange = if *auto_stop {
                        show("⏳ LÍMITE ALCANZADO", "orange")
                    } else {
                        show("Procesando...", "orange")
                    };
                    Effects {
                        osd,
                        command: Some(DaemonCommand::Stop { mode: self.mode }),
                        hide_later: false,
                    }
                }
            },
            AppAction::AutoStop => {
                if self.recording {
                    self.recording = false;
                    Effects {
                        osd: show("⏳ LÍMITE ALCANZADO", "orange"),
                        command: Some(DaemonCommand::Stop { mode: self.mode }),
                        hide_later: false,
                    }
                } else {
                    Effects { osd: OsdChange::Unchanged, command: None, hide_later: false }
                }
            },
            AppAction::CancelRecording => {
                if self.recording {
                    self.recording = false;
                    Effects {
                        osd: show("Cancelado", "gray"),
                        command: Some(DaemonCommand::Cancel),
                        hide_later: true,
                    }
                } else {
                    Effects { osd: OsdChange::Unchanged, command: None, hide_later: false }
                }
            },
            AppAction::OsdUpdate { text, color } => {
                let osd: OsdChange = if self.recording {
                    OsdChange::Unchanged
                } else {
                    show(text.as_str(), color.as_str())
                };
                Effects { osd, command: None, hide_later: false }
            },
            AppAction::OsdHide => {
                let osd: OsdChange = if self.recording {
                    OsdChange::Unchanged
                } else {
                    OsdChange::Hide
                };
                Effects { osd, command: None, hide_later: false }
            },
        }
    }
}

/// What is done with the daemon's answer to a stop.
#[derive(Debug)]
pub enum Delivery {
    /// Nothing: the answer is blank or an error.
    Nothing,
    /// Type this text.
    Type(String),
    /// Copy this text.
    Copy(String),
}

/// The answer holds a transcription.
pub open spec fn is_transcription(answer: Seq<char>) -> bool {
    !strings::blank(answer) && !"ERROR:"@.is_prefix_of(answer)
}

/// What is done with the daemon's answer to a stop; `None` when there was no answer.
pub fn deliver(answer: Option<&str>, mode: Mode) -> (r: Delivery)
    ensures
        match answer {
            Some(a) => if is_transcription(a@) {
                if mode == Mode::Copy {
                    r matches Delivery::Copy(t) && t@ == text::cleaned(a@)
                } else {
                    r matches Delivery::Type(t) && t@ == text::cleaned(a@)
                }
            } else {
                r is Nothing
            },
            None => r is Nothing,
        },
        answer matches Some(a) && !strings::blank(a@) && !"ERROR:"@.is_prefix_of(a@) ==> (r is Copy
            <==> mode == Mode::Copy) && (r is Type <==> mode == Mode::Type || mode == Mode::Auto),
{
    match answer {
        None => Delivery::Nothing,
        Some(a) => {
            let chars: Vec<char> = strings::chars_of(a);
            proof {
                strings::blank_iff_trim_empty(a@);
            }
            if strings::trim_chars(&chars).len() == 0 || strings::starts_with(&chars, "ERROR:") {
                return Delivery::Nothing;
            }
            let cleaned: String = text::clean_transcription(a);
            match mode {
                Mode::Copy => Delivery::Copy(cleaned),
                Mode::Type | Mode::Auto => Delivery::Type(cleaned),
            }
        },
    }
}

/// The plural ending for a number of things.
pub open spec fn plural(n: nat) -> Seq<char> {
    if n == 1 {
        seq![]
    } else {
        "s"@
    }
}

/// The word for what was done.
pub open spec fn done_word(is_type_mode: bool) -> Seq<char> {
    if is_type_mode {
        "Escrito"@
    } else {
        "Copiado"@
    }
}

/// The message and colour for an outcome.
pub open spec fn outcome_message(o: OutcomeView, is_type_mode: bool) -> (Seq<char>, Seq<char>) {
    match o {
        OutcomeView::Done => (done_word(is_type_mode), "green"@),
        OutcomeView::Partial(skipped) => (
            done_word(is_type_mode) + " ⚠ "@ + strings::decimal(skipped.len()) + " tipo"@ + plural(
                skipped.len(),
            ) + " perdido"@ + plural(skipped.len()),
            "green"@,
        ),
        OutcomeView::FallbackSingleMime(_) => (
            "⚠ Respaldo simple (formato único)"@,
            "orange"@,
        ),
        OutcomeView::Refused(_) => ("✘ Cancelado (portapapeles protegido)"@, "gray"@),
    }
}

/// The message and colour for an outcome.
pub fn outcome_osd(outcome: &PasteOutcome, is_type_mode: bool) -> (r: (String, String))
    ensures
        (r.0@, r.1@) == outcome_message(outcome@, is_type_mode),
{
    let word: &str = if is_type_mode {
        "Escrito"
    } else {
        "Copiado"
    };
    match outcome {
        PasteOutcome::Done => (word.to_owned(), "green".to_owned()),
        PasteOutcome::Partial { skipped } => {
            let ending: String = if skipped.len() == 1 {
                String::new()
            } else {
                "s".to_owned()
            };
            assert(ending@ =~= plural(skipped@.len()));
            assert(strings::texts(skipped@).len() == skipped@.len());
            let mut out: String = word.to_owned();
            out.append(" ⚠ ");
            out.append(strings::decimal_of(skipped.len() as u64).as_str());
            out.append(" tipo");
            out.append(ending.as_str());
            out.append(" perdido");
            out.append(ending.as_str());
            (out, "green".to_owned())
        },
        PasteOutcome::FallbackSingleMime { .. } => (
            "⚠ Respaldo simple (formato único)".to_owned(),
            "orange".to_owned(),
        ),
        PasteOutcome::Refused { .. } => (
            "✘ Cancelado (portapapeles protegido)".to_owned(),
            "gray".to_owned(),
        ),
    }
}

/// A message, its colour, and for how many seconds it stays.
#[derive(Debug)]
pub struct Notice {
    pub text: String,
    pub color: String,
    pub seconds: u64,
}

/// What is shown after a transcription was delivered: failures stay longer, and a recording
/// that stopped by itself says so.
pub fn notice(outcome: &PasteOutcome, mode: Mode) -> (r: Notice)
    ensures
        mode == Mode::Auto ==> r.text@ == "⏳ LÍMITE ALCANZADO"@ && r.color@ == "orange"@
            && r.seconds == 3,
        mode != Mode::Auto ==> (r.text@, r.color@) == outcome_message(
            outcome@,
            mode == Mode::Type,
        ) && r.seconds == (if outcome@ is FallbackSingleMime || outcome@ is Refused {
            3u64
        } else {
            1u64
        }),
{
    match mode {
        Mode::Auto => Notice {
            text: "⏳ LÍMITE ALCANZADO".to_owned(),
            color: "orange".to_owned(),
            seconds: 3,
        },
        Mode::Type | Mode::Copy => {
            let is_type_mode: bool = match mode {
                Mode::Type => true,
                _ => false,
            };
            let (text, color) = outcome_osd(outcome, is_type_mode);
            let seconds: u64 = if outcome.is_failure() {
                3
            } else {
                1
            };
            Notice { text, color, seconds }
        },
    }
}

/// A repeated automatic stop does nothing: it neither starts a recording nor stops one twice.
pub proof fn auto_stop_is_idempotent(s: GuiSession)
    ensures
        ({
            let once = after(s, AppAction::AutoStop);
            &&& !once.recording
            &&& after(once, AppAction::AutoStop) == once
            &&& command_for(once, AppAction::AutoStop) is None
            &&& osd_for(once, AppAction::AutoStop) is Unchanged
        }),
{
}

/// A recording is stopped for what it was started for, whatever the second toggle says.
pub proof fn stop_keeps_the_mode_of_the_start(
    s: GuiSession,
    mode: Mode,
    other: Mode,
    auto1: bool,
    auto2: bool,
)
    requires
        !s.recording,
    ensures
        ({
            let started = after(s, AppAction::ToggleRecording { mode, auto_stop: auto1 });
            &&& started.recording
            &&& command_for(started, AppAction::ToggleRecording { mode: other, auto_stop: auto2 })
                == Some(DaemonCommand::Stop { mode })
            &&& command_for(started, AppAction::AutoStop) == Some(DaemonCommand::Stop { mode })
            &&& !after(
                started,
                AppAction::ToggleRecording { mode: other, auto_stop: auto2 },
            ).recording
        }),
{
}

/// While recording, messages of an earlier transcription do not touch the display or the
/// session.
pub proof fn recording_display_is_left_alone(s: GuiSession, text: String, color: String)
    requires
        s.recording,
    ensures
        osd_for(s, AppAction::OsdUpdate { text, color }) is Unchanged,
        osd_for(s, AppAction::OsdHide) is Unchanged,
        after(s, AppAction::OsdUpdate { text, color }) == s,
        after(s, AppAction::OsdHide) == s,
{
}

/// The daemon is told to start exactly when a recording begins, and to stop or to cancel
/// exactly when one ends.
pub proof fn commands_follow_the_recording(s: GuiSession, action: AppAction)
    ensures
        command_for(s, action) == Some(DaemonCommand::Start) <==> !s.recording && after(
            s,
            action,
        ).recording,
        (command_for(s, action) is Some && command_for(s, action) != Some(DaemonCommand::Start))
            <==> s.recording && !after(s, action).recording,
{
}

/// What the display shows, in words and colours: red while recording, orange while what was
/// recorded is transcribed, gray when it was cancelled.
pub proof fn what_the_display_shows(
    s: GuiSession,
    mode: Mode,
    auto_stop: bool,
    text: String,
    color: String,
)
    ensures
        !s.recording ==> osd_for(s, AppAction::ToggleRecording { mode, auto_stop })
            == OsdView::Show("● GRABANDO"@, "red"@),
        s.recording ==> osd_for(s, AppAction::ToggleRecording { mode, auto_stop: false })
            == OsdView::Show("Procesando..."@, "orange"@),
        s.recording ==> osd_for(s, AppAction::ToggleRecording { mode, auto_stop: true })
            == OsdView::Show("⏳ LÍMITE ALCANZADO"@, "orange"@),
        s.recording ==> osd_for(s, AppAction::AutoStop) == OsdView::Show(
            "⏳ LÍMITE ALCANZADO"@,
            "orange"@,
        ),
        s.recording ==> osd_for(s, AppAction::CancelRecording) == OsdView::Show(
            "Cancelado"@,
            "gray"@,
        ),
        !s.recording ==> osd_for(s, AppAction::AutoStop) is Unchanged && osd_for(
            s,
            AppAction::CancelRecording,
        ) is Unchanged,
        !s.recording ==> osd_for(s, AppAction::OsdUpdate { text, color }) == OsdView::Show(
            text@,
            color@,
        ),
        !s.recording ==> osd_for(s, AppAction::OsdHide) is Hide,
{
}

/// What the daemon is told: a toggle starts a recording or stops it, an automatic stop stops
/// it, and a cancel cancels it. Without a recording there is nothing to stop or to cancel, and
/// a change of the display is never its concern.
pub proof fn what_the_daemon_is_told(
    s: GuiSession,
    mode: Mode,
    auto_stop: bool,
    text: String,
    color: String,
)
    ensures
        !s.recording ==> command_for(s, AppAction::ToggleRecording { mode, auto_stop }) == Some(
            DaemonCommand::Start,
        ),
        s.recording ==> command_for(s, AppAction::ToggleRecording { mode, auto_stop }) == Some(
            DaemonCommand::Stop { mode: s.mode },
        ),
        s.recording ==> command_for(s, AppAction::AutoStop) == Some(
            DaemonCommand::Stop { mode: s.mode },
        ),
        s.recording ==> command_for(s, AppAction::CancelRecording) == Some(DaemonCommand::Cancel),
        s.recording ==> !after(s, AppAction::CancelRecording).recording,
        !s.recording ==> command_for(s, AppAction::AutoStop) is None && command_for(
            s,
            AppAction::CancelRecording,
        ) is None && after(s, AppAction::AutoStop) == s && after(s, AppAction::CancelRecording)
            == s,
        !s.recording ==> after(s, AppAction::ToggleRecording { mode, auto_stop }).mode == mode,
        command_for(s, AppAction::OsdUpdate { text, color }) is None,
        command_for(s, AppAction::OsdHide) is None,
        after(s, AppAction::OsdUpdate { text, color }) == s,
        after(s, AppAction::OsdHide) == s,
{
}

/// An answer of the daemon is a transcription unless it holds nothing but white space or begins
/// with `ERROR:`.
pub proof fn which_answers_are_transcriptions(answer: Seq<char>)
    ensures
        is_transcription(answer) <==> (exists|i: int|
            0 <= i < answer.len() && !strings::white_space(#[trigger] answer[i])) && !(answer.len()
            >= 6 && answer.take(6) == "ERROR:"@),
{
    reveal_strlit("ERROR:");
    if "ERROR:"@.is_prefix_of(answer) {
        assert(answer.take(6) =~= "ERROR:"@);
    }
    if answer.len() >= 6 && answer.take(6) == "ERROR:"@ {
        assert("ERROR:"@.is_prefix_of(answer));
    }
}

/// What the user is told of each outcome. A pasted text is green, with the number of types that
/// were lost where there are any; a clipboard of which only one type came back is orange; a
/// refusal is gray.
pub proof fn what_the_user_is_told(o: OutcomeView, is_type_mode: bool)
    ensures
        ({
            let m = outcome_message(o, is_type_mode);
            let word = if is_type_mode {
                "Escrito"@
            } else {
                "Copiado"@
            };
            &&& o is Done ==> m == (word, "green"@)
            &&& (o matches OutcomeView::Partial(skipped) ==> m.1 == "green"@ && (skipped.len() == 1
                ==> m.0 == word + " ⚠ 1 tipo perdido"@) && (skipped.len() != 1 ==> m.0 == word
                + " ⚠ "@ + strings::decimal(skipped.len()) + " tipos perdidos"@))
            &&& o is FallbackSingleMime ==> m == (
                "⚠ Respaldo simple (formato único)"@,
                "orange"@,
            )
            &&& o is Refused ==> m == ("✘ Cancelado (portapapeles protegido)"@, "gray"@)
        }),
{
    reveal_strlit(" ⚠ ");
    reveal_strlit(" ⚠ 1 tipo perdido");
    reveal_strlit(" tipo");
    reveal_strlit(" perdido");
    reveal_strlit(" tipos perdidos");
    reveal_strlit("s");
    let word = done_word(is_type_mode);
    if let OutcomeView::Partial(skipped) = o {
        strings::numbers_are_written_out(0, 1);
        if skipped.len() == 1 {
            assert(outcome_message(o, is_type_mode).0 =~= word + " ⚠ 1 tipo perdido"@);
        } else {
            assert(" tipo"@ + "s"@ + " perdido"@ + "s"@ =~= " tipos perdidos"@);
            assert(outcome_message(o, is_type_mode).0 =~= word + " ⚠ "@ + strings::decimal(
                skipped.len(),
            ) + " tipos perdidos"@);
        }
    }
}

} // verus!
