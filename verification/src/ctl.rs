//! The control client.

use crate::gui::connection;
use crate::gui::session::{AppAction, Mode};
use crate::paths;
use crate::paths::{PathsConfig, ResolvedPaths, Runtime};
use crate::strings;
use crate::unix_path::UnixPath;
use vstd::prelude::*;
use vstd::string::*;

verus! {

/// What the user asks for.
#[derive(Clone, Copy, Debug, PartialEq, Eq, Structural)]
pub enum ControlCommand {
    /// Toggle recording and type the result.
    ToggleType,
    /// Toggle recording and copy the result.
    ToggleCopy,
    /// Cancel the recording.
    Cancel,
}

/// The word for a command.
pub open spec fn word_for(c: ControlCommand) -> Seq<char> {
    match c {
        ControlCommand::ToggleType => "TOGGLE_TYPE"@,
        ControlCommand::ToggleCopy => "TOGGLE_COPY"@,
        ControlCommand::Cancel => "CANCEL"@,
    }
}

/// The word that the front end is sent for a command.
pub fn control_word(c: ControlCommand) -> (r: &'static str)
    ensures
        r@ == word_for(c),
        c == ControlCommand::ToggleType ==> r@ == "TOGGLE_TYPE"@,
        c == ControlCommand::ToggleCopy ==> r@ == "TOGGLE_COPY"@,
        c == ControlCommand::Cancel ==> r@ == "CANCEL"@,
{
    match c {
        ControlCommand::ToggleType => "TOGGLE_TYPE",
        ControlCommand::ToggleCopy => "TOGGLE_COPY",
        ControlCommand::Cancel => "CANCEL",
    }
}

/// What a line of `/proc/self/status` says of the user id; `None` for a line about something
/// else.
pub open spec fn uid_in(line: Seq<char>) -> Option<u32> {
    if "Uid:"@.is_prefix_of(line) {
        let ws = strings::words(line.skip(4));
        if ws.len() > 0 {
            Some(
                match strings::parse_unsigned(ws[0], u32::MAX as nat) {
                    Some(n) => n as u32,
                    None => 0,
                },
            )
        } else {
            None
        }
    } else {
        None
    }
}

/// The user id in the lines of `/proc/self/status`: that of the first line about it, else 0.
pub open spec fn uid_of(lines: Seq<Seq<char>>) -> u32
    decreases lines.len(),
{
    if lines.len() == 0 {
        0
    } else {
        match uid_in(lines[0]) {
            Some(u) => u,
            None => uid_of(lines.drop_first()),
        }
    }
}

fn uid_in_line(line: &Vec<char>) -> (r: Option<u32>)
    ensures
        r == uid_in(line@),
{
    if !strings::starts_with(line, "Uid:") {
        return None;
    }
    proof {
        reveal_strlit("Uid:");
    }
    let rest: Vec<char> = strings::sub_chars(line, 4, line.len());
    assert(rest@ =~= line@.skip(4));
    let ws: Vec<Vec<char>> = strings::words_of(&rest);
    assert(strings::views(ws@).len() == ws.len());
    if ws.len() == 0 {
        return None;
    }
    assert(strings::views(ws@)[0] == ws@[0]@);
    match strings::parse_u32(&ws[0]) {
        Some(n) => Some(n),
        None => Some(0),
    }
}

/// The numeric user id in the text of `/proc/self/status`; 0 when it is not to be had.
pub fn current_uid(status: Option<&str>) -> (r: u32)
    ensures
        r == match status {
            Some(text) => uid_of(strings::lines(text@)),
            None => 0u32,
        },
{
    match status {
        None => 0,
        Some(text) => {
            let lines: Vec<Vec<char>> = strings::lines_of(&strings::chars_of(text));
            let ghost ls = strings::lines(text@);
            let mut i: usize = 0;
            assert(strings::views(lines@).len() == lines.len());
            assert(ls.skip(0) =~= ls);
            while i < lines.len()
                invariant
                    i <= lines.len(),
                    strings::views(lines@) == ls,
                    ls.len() == lines.len(),
                    uid_of(ls) == uid_of(ls.skip(i as int)),
                    ls == strings::lines(text@),
                    status == Some(text),
                decreases lines.len() - i,
            {
                assert(lines@[i as int]@ == strings::views(lines@)[i as int]);
                assert(ls.skip(i as int)[0] == ls[i as int]);
                if let Some(u) = uid_in_line(&lines[i]) {
                    return u;
                }
                assert(ls.skip(i as int).drop_first() =~= ls.skip(i + 1));
                i = i + 1;
            }
            0
        },
    }
}

/// The front end's control socket, found by the rules that the front end goes by: configuration
/// and environment move it for both.
pub fn control_socket_path(cfg: &PathsConfig, env: &Runtime) -> (r: UnixPath)
    ensures
        r@ == paths::chosen_control(*cfg, *env),
{
    paths::pick_control_socket(cfg, env)
}

/// The front end understands every word that the control client sends.
pub proof fn front_end_understands_the_words(c: ControlCommand)
    ensures
        connection::action_of(word_for(c)) == Some(
            match c {
                ControlCommand::ToggleType => AppAction::ToggleRecording {
                    mode: Mode::Type,
                    auto_stop: false,
                },
                ControlCommand::ToggleCopy => AppAction::ToggleRecording {
                    mode: Mode::Copy,
                    auto_stop: false,
                },
                ControlCommand::Cancel => AppAction::CancelRecording,
            },
        ),
{
    reveal_strlit("TOGGLE_TYPE");
    reveal_strlit("TOGGLE_COPY");
    reveal_strlit("CANCEL");
    assert("TOGGLE_TYPE"@[7] != "TOGGLE_COPY"@[7]);
    assert("CANCEL"@[0] != "TOGGLE_TYPE"@[0]);
    assert("CANCEL"@[0] != "TOGGLE_COPY"@[0]);
}

/// The control client finds the socket that the front end listens on, whatever configuration
/// and environment say: `client` is what [`control_socket_path`] gives, and `front_end` is what
/// the resolver hands to the front end. A socket in the environment comes first, then one in the
/// configuration, then `control.sock` in the socket directory.
pub proof fn client_and_front_end_meet(
    cfg: PathsConfig,
    env: Runtime,
    client: UnixPath,
    front_end: ResolvedPaths,
)
    requires
        client@ == paths::chosen_control(cfg, env),
        front_end.control_sock@ == paths::chosen_control(cfg, env),
    ensures
        client@ == front_end.control_sock@,
        paths::given_path(env.control_socket) matches Some(p) ==> client@ == p,
        paths::given_path(env.control_socket) is None ==> match paths::given_text(
            cfg.control_socket,
        ) {
            Some(p) => client@ == p,
            None => client@ == paths::under(paths::chosen_dir(cfg, env), "control.sock"@),
        },
{
}

/// A directory that is configured moves the control socket, unless a single socket is given.
pub proof fn configured_directory_moves_the_client(cfg: PathsConfig, env: Runtime, dir: Seq<u8>)
    requires
        paths::given_text(cfg.socket_dir) == Some(dir),
        paths::given_text(cfg.control_socket) is None,
        paths::given_path(env.daemon_socket) is None,
        paths::given_path(env.control_socket) is None,
    ensures
        paths::chosen_control(cfg, env) == paths::under(dir, "control.sock"@),
{
}

/// The user id is the first number behind `Uid:` on the first line that begins so; lines about
/// something else do not count, and neither does a line with nothing behind it.
pub proof fn first_uid_line_counts(lines: Seq<Seq<char>>, k: int, rest: Seq<char>, n: u32)
    requires
        0 <= k < lines.len(),
        forall|i: int|
            0 <= i < k ==> !("Uid:"@.is_prefix_of(#[trigger] lines[i])) || strings::blank(
                lines[i].skip(4),
            ),
        lines[k] == "Uid:"@ + rest,
        strings::words(rest).len() > 0,
        strings::words(rest)[0] == strings::decimal(n as nat),
    ensures
        uid_of(lines) == n,
    decreases lines.len(),
{
    reveal_strlit("Uid:");
    if k == 0 {
        assert(lines[0].skip(4) =~= rest);
        assert("Uid:"@ =~= lines[0].take(4));
        strings::numbers_read_back(n as nat, u32::MAX as nat);
    } else {
        let t = lines.drop_first();
        assert(t[k - 1] == lines[k]);
        assert forall|i: int| 0 <= i < k - 1 implies !("Uid:"@.is_prefix_of(#[trigger] t[i]))
            || strings::blank(t[i].skip(4)) by {
            assert(t[i] == lines[i + 1]);
        }
        if "Uid:"@.is_prefix_of(lines[0]) {
            crate::gui::text::blank_has_no_words(lines[0].skip(4));
        }
        first_uid_line_counts(t, k - 1, rest, n);
    }
}

/// Without a line about the user id it is 0.
pub proof fn no_uid_line_means_zero(lines: Seq<Seq<char>>)
    requires
        forall|i: int| 0 <= i < lines.len() ==> !("Uid:"@.is_prefix_of(#[trigger] lines[i])),
    ensures
        uid_of(lines) == 0,
    decreases lines.len(),
{
    if lines.len() > 0 {
        let t = lines.drop_first();
        assert forall|i: int| 0 <= i < t.len() implies !("Uid:"@.is_prefix_of(#[trigger] t[i])) by {
            assert(t[i] == lines[i + 1]);
        }
        no_uid_line_means_zero(t);
    }
}

/// A user id that is no number counts as 0.
pub proof fn unreadable_uid_means_zero(lines: Seq<Seq<char>>, rest: Seq<char>)
    requires
        lines.len() > 0,
        lines[0] == "Uid:"@ + rest,
        strings::words(rest).len() > 0,
        strings::parse_unsigned(strings::words(rest)[0], u32::MAX as nat) is None,
    ensures
        uid_of(lines) == 0,
{
    reveal_strlit("Uid:");
    assert(lines[0].skip(4) =~= rest);
    assert("Uid:"@ =~= lines[0].take(4));
}

} // verus!
