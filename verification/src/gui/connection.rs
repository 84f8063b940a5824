//! What goes over the sockets of the front end.

use crate::gui::session::{AppAction, DaemonCommand, Mode};
use crate::strings;
use crate::unix_path;
use vstd::prelude::*;
use vstd::string::*;

verus! {

/// A control command is read up to this many bytes.
pub const CONTROL_MAX_BYTES: usize = 1024;

/// The daemon, as the front end talks to it.
#[derive(Clone, Copy, Debug, PartialEq, Eq, Structural)]
pub struct SocketClient;

impl SocketClient {
    /// The text of the daemon's answer.
    pub fn answer(response: &Vec<u8>) -> (r: String)
        ensures
            r@ == strings::text_of_bytes(response@),
    {
        strings::lossy(response)
    }
}

/// The word for a command.
pub open spec fn word_for(c: DaemonCommand) -> Seq<char> {
    match c {
        DaemonCommand::Start => "START"@,
        DaemonCommand::Stop { .. } => "STOP"@,
        DaemonCommand::Cancel => "CANCEL"@,
    }
}

/// The word that the daemon is sent for a command.
pub fn daemon_word(c: DaemonCommand) -> (r: &'static str)
    ensures
        r@ == word_for(c),
{
    match c {
        DaemonCommand::Start => "START",
        DaemonCommand::Stop { .. } => "STOP",
        DaemonCommand::Cancel => "CANCEL",
    }
}

/// The bytes of a control command that are read.
pub open spec fn read_part(payload: Seq<u8>) -> Seq<u8> {
    if payload.len() > CONTROL_MAX_BYTES {
        payload.take(CONTROL_MAX_BYTES as int)
    } else {
        payload
    }
}

/// The action that a word stands for.
pub open spec fn action_of(word: Seq<char>) -> Option<AppAction> {
    if word == "TOGGLE_TYPE"@ {
        Some(AppAction::ToggleRecording { mode: Mode::Type, auto_stop: false })
    } else if word == "TOGGLE_COPY"@ {
        Some(AppAction::ToggleRecording { mode: Mode::Copy, auto_stop: false })
    } else if word == "CANCEL"@ {
        Some(AppAction::CancelRecording)
    } else if word == "AUTO_STOP"@ {
        Some(AppAction::AutoStop)
    } else {
        None
    }
}

/// The word of a control command, without white space around it.
pub fn next_command(payload: &Vec<u8>) -> (r: String)
    ensures
        r@ == strings::trim(strings::text_of_bytes(read_part(payload@))),
{
    let used: Vec<u8> = if payload.len() > CONTROL_MAX_BYTES {
        let head: Vec<u8> = unix_path::sub_bytes(payload, 0, CONTROL_MAX_BYTES);
        assert(head@ =~= payload@.take(CONTROL_MAX_BYTES as int));
        head
    } else {
        unix_path::copy_bytes(payload)
    };
    strings::trimmed(strings::lossy(&used).as_str())
}

/// The action that a word stands for; unknown words are ignored.
pub fn control_action(word: &str) -> (r: Option<AppAction>)
    ensures
        r == action_of(word@),
{
    if strings::same(word, "TOGGLE_TYPE") {
        Some(AppAction::ToggleRecording { mode: Mode::Type, auto_stop: false })
    } else if strings::same(word, "TOGGLE_COPY") {
        Some(AppAction::ToggleRecording { mode: Mode::Copy, auto_stop: false })
    } else if strings::same(word, "CANCEL") {
        Some(AppAction::CancelRecording)
    } else if strings::same(word, "AUTO_STOP") {
        Some(AppAction::AutoStop)
    } else {
        None
    }
}

/// The word by which the daemon tells the front end that a recording reached its limit.
pub fn auto_stop_word() -> (r: &'static str)
    ensures
        r@ == "AUTO_STOP"@,
{
    "AUTO_STOP"
}

/// The daemon understands every word that the front end sends it.
pub proof fn daemon_understands_the_words(c: DaemonCommand)
    ensures
        crate::daemon::socket::request_of(vstd::utf8::encode_utf8(word_for(c))) == match c {
            DaemonCommand::Start => crate::daemon::socket::RequestView::Start,
            DaemonCommand::Stop { .. } => crate::daemon::socket::RequestView::Stop,
            DaemonCommand::Cancel => crate::daemon::socket::RequestView::Cancel,
        },
{
    reveal_strlit("START");
    reveal_strlit("STOP");
    reveal_strlit("CANCEL");
    reveal_strlit("REFRESH");
    let w = word_for(c);
    strings::text_of_encoded(w);
    assert(vstd::utf8::is_ascii_chars(w));
    vstd::utf8::is_ascii_chars_encode_utf8(w);
    assert(!strings::white_space(w[0]));
    assert(!strings::white_space(w.last()));
    assert(strings::trim(w) == w);
    assert(w[0] != "REFRESH"@[0]);
    assert("STOP"@.len() != "START"@.len());
    assert("CANCEL"@[0] != "START"@[0]);
    assert("CANCEL"@[0] != "STOP"@[0]);
}

/// A control command is one of these words, and nothing else is.
pub proof fn which_words_are_known(word: Seq<char>)
    ensures
        word == "TOGGLE_TYPE"@ ==> action_of(word) == Some(
            AppAction::ToggleRecording { mode: Mode::Type, auto_stop: false },
        ),
        word == "TOGGLE_COPY"@ ==> action_of(word) == Some(
            AppAction::ToggleRecording { mode: Mode::Copy, auto_stop: false },
        ),
        word == "CANCEL"@ ==> action_of(word) == Some(AppAction::CancelRecording),
        word == "AUTO_STOP"@ ==> action_of(word) == Some(AppAction::AutoStop),
        word != "TOGGLE_TYPE"@ && word != "TOGGLE_COPY"@ && word != "CANCEL"@ && word
            != "AUTO_STOP"@ ==> action_of(word) is None,
{
    reveal_strlit("TOGGLE_TYPE");
    reveal_strlit("TOGGLE_COPY");
    reveal_strlit("CANCEL");
    reveal_strlit("AUTO_STOP");
    assert("TOGGLE_TYPE"@[7] == 'T' && "TOGGLE_COPY"@[7] == 'C');
    assert("TOGGLE_TYPE"@[0] == 'T' && "TOGGLE_COPY"@[0] == 'T');
    assert("CANCEL"@[0] == 'C' && "AUTO_STOP"@[0] == 'A');
}

/// A control command of up to a kibibyte is read whole; of a longer one the first kibibyte is.
pub proof fn control_commands_are_bounded(payload: Seq<u8>)
    ensures
        payload.len() <= 1024 ==> read_part(payload) == payload,
        payload.len() > 1024 ==> read_part(payload) == payload.take(1024),
{
}

} // verus!
