//! The daemon's socket protocol and its status display.

use crate::daemon::config::SttConfig;
use crate::daemon::event_loop::StatusResponse;
use crate::strings;
use crate::unix_path;
use vstd::prelude::*;
use vstd::string::*;

verus! {

/// A request is read up to this many bytes.
pub const REFRESH_MAX_BYTES: usize = 65536;

/// What a client asks for.
#[derive(Debug)]
pub enum Request {
    /// It sent nothing.
    Empty,
    Start,
    Stop,
    Cancel,
    Status,
    /// Use this configuration, given as JSON.
    Refresh(String),
    Unknown,
}

/// The values of a [`Request`].
#[verifier::ext_equal]
pub enum RequestView {
    Empty,
    Start,
    Stop,
    Cancel,
    Status,
    Refresh(Seq<char>),
    Unknown,
}

impl View for Request {
    type V = RequestView;

    open spec fn view(&self) -> RequestView {
        match *self {
            Request::Empty => RequestView::Empty,
            Request::Start => RequestView::Start,
            Request::Stop => RequestView::Stop,
            Request::Cancel => RequestView::Cancel,
            Request::Status => RequestView::Status,
            Request::Refresh(json) => RequestView::Refresh(json@),
            Request::Unknown => RequestView::Unknown,
        }
    }
}

/// What came of handing a command to the loop.
#[derive(Debug)]
pub enum Outcome {
    /// The loop no longer takes commands.
    ChannelClosed,
    /// The loop took the command; nothing comes back.
    Accepted,
    /// The loop took the command and let it go without an answer.
    Dropped,
    /// The loop answered: a transcription, or a status as JSON.
    Answer(String),
    /// The JSON of a new configuration does not parse.
    BadJson(String),
    /// A new configuration was refused.
    Refused(String),
}

/// The bytes of a request that are read.
pub open spec fn read_part(payload: Seq<u8>) -> Seq<u8> {
    if payload.len() > REFRESH_MAX_BYTES {
        payload.take(REFRESH_MAX_BYTES as int)
    } else {
        payload
    }
}

/// The request that a text stands for.
pub open spec fn request_of_text(text: Seq<char>) -> RequestView {
    let word = strings::trim(text);
    if "REFRESH"@.is_prefix_of(word) {
        RequestView::Refresh(strings::trim(word.skip("REFRESH"@.len() as int)))
    } else if word == "START"@ {
        RequestView::Start
    } else if word == "STOP"@ {
        RequestView::Stop
    } else if word == "CANCEL"@ {
        RequestView::Cancel
    } else if word == "STATUS"@ {
        RequestView::Status
    } else {
        RequestView::Unknown
    }
}

/// The request that a client's bytes stand for.
pub open spec fn request_of(payload: Seq<u8>) -> RequestView {
    if payload.len() == 0 {
        RequestView::Empty
    } else {
        request_of_text(strings::text_of_bytes(read_part(payload)))
    }
}

/// The request that a text stands for.
pub fn parse_text(text: &str) -> (r: Request)
    ensures
        r@ == request_of_text(text@),
{
    let word: Vec<char> = strings::trim_chars(&strings::chars_of(text));
    if strings::starts_with(&word, "REFRESH") {
        proof {
            reveal_strlit("REFRESH");
        }
        let rest: Vec<char> = strings::sub_chars(&word, 7, word.len());
        assert(rest@ =~= word@.skip(7));
        Request::Refresh(strings::string_of(&strings::trim_chars(&rest)))
    } else if strings::chars_are(&word, "START") {
        Request::Start
    } else if strings::chars_are(&word, "STOP") {
        Request::Stop
    } else if strings::chars_are(&word, "CANCEL") {
        Request::Cancel
    } else if strings::chars_are(&word, "STATUS") {
        Request::Status
    } else {
        Request::Unknown
    }
}

/// The request that a client's bytes stand for. No more than [`REFRESH_MAX_BYTES`] count.
pub fn parse_request(payload: &Vec<u8>) -> (r: Request)
    ensures
        r@ == request_of(payload@),
{
    if payload.len() == 0 {
        return Request::Empty;
    }
    let used: Vec<u8> = if payload.len() > REFRESH_MAX_BYTES {
        let head: Vec<u8> = unix_path::sub_bytes(payload, 0, REFRESH_MAX_BYTES);
        assert(head@ =~= payload@.take(REFRESH_MAX_BYTES as int));
        head
    } else {
        unix_path::copy_bytes(payload)
    };
    parse_text(strings::lossy(&used).as_str())
}

/// What the client is told.
pub open spec fn reply_text(request: RequestView, outcome: Outcome) -> Seq<char> {
    match request {
        RequestView::Empty => "ERROR: empty command"@,
        RequestView::Unknown => "ERROR: Unknown command"@,
        RequestView::Cancel => "STATUS: CANCELLED"@,
        RequestView::Start => match outcome {
            Outcome::ChannelClosed => "ERROR: Internal channel error"@,
            _ => "STATUS: RECORDING"@,
        },
        RequestView::Stop => match outcome {
            Outcome::ChannelClosed => "ERROR: Internal channel error"@,
            Outcome::Answer(text) => text@,
            _ => "ERROR: Transcription cancelled or failed"@,
        },
        RequestView::Status => match outcome {
            Outcome::ChannelClosed => "ERROR: Internal channel error"@,
            Outcome::Answer(json) => json@,
            _ => "ERROR: Failed to get status"@,
        },
        RequestView::Refresh(_) => match outcome {
            Outcome::ChannelClosed => "ERROR: Internal channel error"@,
            Outcome::BadJson(e) => "ERROR: Invalid config JSON: "@ + e@,
            Outcome::Refused(e) => "ERROR: "@ + e@,
            Outcome::Accepted => "OK: Config reloaded"@,
            _ => "ERROR: Reload cancelled or failed"@,
        },
    }
}

/// What the client is told.
pub fn reply(request: &Request, outcome: &Outcome) -> (r: String)
    ensures
        r@ == reply_text(request@, *outcome),
{
    match request {
        Request::Empty => "ERROR: empty command".to_owned(),
        Request::Unknown => "ERROR: Unknown command".to_owned(),
        Request::Cancel => "STATUS: CANCELLED".to_owned(),
        Request::Start => match outcome {
            Outcome::ChannelClosed => "ERROR: Internal channel error".to_owned(),
            _ => "STATUS: RECORDING".to_owned(),
        },
        Request::Stop => match outcome {
            Outcome::ChannelClosed => "ERROR: Internal channel error".to_owned(),
            Outcome::Answer(text) => text.clone(),
            _ => "ERROR: Transcription cancelled or failed".to_owned(),
        },
        Request::Status => match outcome {
            Outcome::ChannelClosed => "ERROR: Internal channel error".to_owned(),
            Outcome::Answer(json) => json.clone(),
            _ => "ERROR: Failed to get status".to_owned(),
        },
        Request::Refresh(_) => match outcome {
            Outcome::ChannelClosed => "ERROR: Internal channel error".to_owned(),
            Outcome::BadJson(e) => strings::cat("ERROR: Invalid config JSON: ", e.as_str()),
            Outcome::Refused(e) => strings::cat("ERROR: ", e.as_str()),
            Outcome::Accepted => "OK: Config reloaded".to_owned(),
            _ => "ERROR: Reload cancelled or failed".to_owned(),
        },
    }
}

/// A command for the loop.
#[derive(Debug)]
pub enum Command {
    Start,
    Stop,
    Cancel,
    GetStatus,
    ReloadConfig { new_config: SttConfig },
}

/// The command for a request. `parsed` is the configuration of a refresh request, where its
/// JSON parses. There is none for an empty or unknown request, or for one whose JSON does not
/// parse.
pub fn command_for(request: &Request, parsed: Option<SttConfig>) -> (r: Option<Command>)
    ensures
        match request@ {
            RequestView::Start => r matches Some(c) && c is Start,
            RequestView::Stop => r matches Some(c) && c is Stop,
            RequestView::Cancel => r matches Some(c) && c is Cancel,
            RequestView::Status => r matches Some(c) && c is GetStatus,
            RequestView::Refresh(_) => match parsed {
                Some(p) => r matches Some(Command::ReloadConfig { new_config }) && new_config@
                    == p@,
                None => r is None,
            },
            RequestView::Empty | RequestView::Unknown => r is None,
        },
{
    match request {
        Request::Start => Some(Command::Start),
        Request::Stop => Some(Command::Stop),
        Request::Cancel => Some(Command::Cancel),
        Request::Status => Some(Command::GetStatus),
        Request::Refresh(_) => match parsed {
            Some(new_config) => Some(Command::ReloadConfig { new_config }),
            None => None,
        },
        Request::Empty | Request::Unknown => None,
    }
}

/// The request of a client that wants a new configuration used.
pub fn refresh_request(json: &str) -> (r: String)
    ensures
        r@ == "REFRESH "@ + json@,
{
    strings::cat("REFRESH ", json)
}

/// What a client makes of the answer to a status request.
#[derive(Clone, Copy, Debug, PartialEq, Eq, Structural)]
pub enum StatusReply {
    /// Nothing came back.
    Empty,
    /// The daemon reported an error.
    Error,
    /// A status as JSON.
    Payload,
}

/// What a client makes of the answer to a status request.
pub fn classify_status_reply(response: &str) -> (r: StatusReply)
    ensures
        r == (if strings::blank(response@) {
            StatusReply::Empty
        } else if "ERROR"@.is_prefix_of(response@) {
            StatusReply::Error
        } else {
            StatusReply::Payload
        }),
{
    let chars: Vec<char> = strings::chars_of(response);
    proof {
        strings::blank_iff_trim_empty(response@);
    }
    if strings::trim_chars(&chars).len() == 0 {
        StatusReply::Empty
    } else if strings::starts_with(&chars, "ERROR") {
        StatusReply::Error
    } else {
        StatusReply::Payload
    }
}

/// `n` copies of `c`.
pub open spec fn repeated(c: char, n: nat) -> Seq<char> {
    Seq::new(n, |i: int| c)
}

/// `s` filled up with `c` to `width` characters; longer text stays as it is.
pub open spec fn padded(s: Seq<char>, c: char, width: nat) -> Seq<char> {
    if s.len() < width {
        s + repeated(c, (width - s.len()) as nat)
    } else {
        s
    }
}

/// `s` filled up with `c` to `width` characters; longer text stays as it is.
pub fn pad(s: &str, c: char, width: usize) -> (r: String)
    ensures
        r@ == padded(s@, c, width as nat),
{
    let mut out: Vec<char> = strings::chars_of(s);
    let ghost before = out@;
    assert(before + repeated(c, 0) =~= before);
    while out.len() < width
        invariant
            before.len() <= out.len(),
            out.len() <= width || out.len() == before.len(),
            out@ == before + repeated(c, (out.len() - before.len()) as nat),
        decreases width - out.len(),
    {
        out.push(c);
        assert(out@ =~= before + repeated(c, (out.len() - before.len()) as nat));
    }
    assert(out@ =~= padded(s@, c, width as nat));
    strings::string_of(&out)
}

/// The cells of a line of the status table.
#[derive(Debug)]
pub struct Row {
    pub active: String,
    pub pid: String,
    pub kind: String,
    pub model: String,
    pub language: String,
    pub max_seconds: String,
    pub state: String,
}

/// A line of the status table: each cell filled up to its width, with a space in between.
pub open spec fn line(
    active: Seq<char>,
    pid: Seq<char>,
    kind: Seq<char>,
    model: Seq<char>,
    language: Seq<char>,
    max_seconds: Seq<char>,
    state: Seq<char>,
    c: char,
) -> Seq<char> {
    padded(active, c, 10) + " "@ + padded(pid, c, 10) + " "@ + padded(kind, c, 10) + " "@ + padded(
        model,
        c,
        30,
    ) + " "@ + padded(language, c, 10) + " "@ + padded(max_seconds, c, 10) + " "@ + padded(
        state,
        c,
        15,
    )
}

/// A line of the status table, its cells filled up with `c`.
pub fn table_line(row: &Row, c: char) -> (r: String)
    ensures
        r@ == line(
            row.active@,
            row.pid@,
            row.kind@,
            row.model@,
            row.language@,
            row.max_seconds@,
            row.state@,
            c,
        ),
{
    let mut out: String = pad(row.active.as_str(), c, 10);
    out.append(" ");
    out.append(pad(row.pid.as_str(), c, 10).as_str());
    out.append(" ");
    out.append(pad(row.kind.as_str(), c, 10).as_str());
    out.append(" ");
    out.append(pad(row.model.as_str(), c, 30).as_str());
    out.append(" ");
    out.append(pad(row.language.as_str(), c, 10).as_str());
    out.append(" ");
    out.append(pad(row.max_seconds.as_str(), c, 10).as_str());
    out.append(" ");
    out.append(pad(row.state.as_str(), c, 15).as_str());
    out
}

/// A model identifier as the table shows it: one that is longer than 28 characters is cut
/// there and marked.
pub open spec fn model_cell(id: Seq<char>) -> Seq<char> {
    if id.len() > 28 {
        id.take(28).push('…')
    } else {
        id
    }
}

/// A model identifier as the table shows it.
pub fn model_display(id: &str) -> (r: String)
    ensures
        r@ == model_cell(id@),
{
    let chars: Vec<char> = strings::chars_of(id);
    if chars.len() > 28 {
        let mut head: Vec<char> = strings::sub_chars(&chars, 0, 28);
        assert(head@ =~= id@.take(28));
        head.push('…');
        strings::string_of(&head)
    } else {
        strings::string_of(&chars)
    }
}

/// The heading of the status table.
pub open spec fn heading() -> Seq<char> {
    "Telora Daemon Status\n"@ + line(
        "ACTIVE"@,
        "PID"@,
        "KIND"@,
        "MODEL"@,
        "LANG"@,
        "MAX_SEC"@,
        "STATE"@,
        ' ',
    ) + "\n"@ + line(seq![], seq![], seq![], seq![], seq![], seq![], seq![], '-') + "\n"@
}

fn heading_text() -> (r: String)
    ensures
        r@ == heading(),
{
    let titles: Row = Row {
        active: "ACTIVE".to_owned(),
        pid: "PID".to_owned(),
        kind: "KIND".to_owned(),
        model: "MODEL".to_owned(),
        language: "LANG".to_owned(),
        max_seconds: "MAX_SEC".to_owned(),
        state: "STATE".to_owned(),
    };
    let rule: Row = Row {
        active: String::new(),
        pid: String::new(),
        kind: String::new(),
        model: String::new(),
        language: String::new(),
        max_seconds: String::new(),
        state: String::new(),
    };
    let mut out: String = "Telora Daemon Status\n".to_owned();
    out.append(table_line(&titles, ' ').as_str());
    out.append("\n");
    assert(rule.active@ =~= seq![]);
    assert(rule.pid@ =~= seq![]);
    assert(rule.kind@ =~= seq![]);
    assert(rule.model@ =~= seq![]);
    assert(rule.language@ =~= seq![]);
    assert(rule.max_seconds@ =~= seq![]);
    assert(rule.state@ =~= seq![]);
    out.append(table_line(&rule, '-').as_str());
    out.append("\n");
    out
}

/// The status display of a daemon that does not run.
pub fn stopped_table() -> (r: String)
    ensures
        r@ == heading() + line("NO"@, "-"@, "-"@, "-"@, "-"@, "-"@, "STOPPED"@, ' ') + "\n"@,
{
    let row: Row = Row {
        active: "NO".to_owned(),
        pid: "-".to_owned(),
        kind: "-".to_owned(),
        model: "-".to_owned(),
        language: "-".to_owned(),
        max_seconds: "-".to_owned(),
        state: "STOPPED".to_owned(),
    };
    let mut out: String = heading_text();
    out.append(table_line(&row, ' ').as_str());
    out.append("\n");
    out
}

/// The lines below the table, for an active daemon.
pub open spec fn details(s: StatusResponse) -> Seq<char> {
    if s.active {
        "\nFull Model Id:   "@ + s.model_id@ + "\nResolved Path:   "@ + s.model_path@
            + "\nEngine Kind:     "@ + s.model_kind@ + "\n"@
    } else {
        seq![]
    }
}

/// The status display of a daemon.
pub open spec fn display(s: StatusResponse) -> Seq<char> {
    heading() + line(
        if s.active {
            "YES"@
        } else {
            "NO"@
        },
        strings::decimal(s.pid as nat),
        s.model_kind@,
        model_cell(s.model_id@),
        s.language@,
        strings::decimal(s.max_recording_seconds as nat),
        s.state@,
        ' ',
    ) + "\n"@ + details(s)
}

/// The status display of a daemon.
pub fn status_table(s: &StatusResponse) -> (r: String)
    ensures
        r@ == display(*s),
{
    let row: Row = Row {
        active: if s.active {
            "YES".to_owned()
        } else {
            "NO".to_owned()
        },
        pid: strings::decimal_of(s.pid as u64),
        kind: s.model_kind.clone(),
        model: model_display(s.model_id.as_str()),
        language: s.language.clone(),
        max_seconds: strings::decimal_of(s.max_recording_seconds as u64),
        state: s.state.clone(),
    };
    let mut out: String = heading_text();
    out.append(table_line(&row, ' ').as_str());
    out.append("\n");
    let ghost top = out@;
    if s.active {
        out.append("\nFull Model Id:   ");
        out.append(s.model_id.as_str());
        out.append("\nResolved Path:   ");
        out.append(s.model_path.as_str());
        out.append("\nEngine Kind:     ");
        out.append(s.model_kind.as_str());
        out.append("\n");
        assert(out@ =~= top + details(*s));
    } else {
        assert(top + details(*s) =~= top);
    }
    out
}

/// What a client renders as a refresh request, the daemon reads back: the JSON, without white
/// space around it.
pub proof fn refresh_round_trip(json: Seq<char>)
    requires
        vstd::utf8::encode_utf8("REFRESH "@ + json).len() <= REFRESH_MAX_BYTES,
    ensures
        request_of(vstd::utf8::encode_utf8("REFRESH "@ + json)) == RequestView::Refresh(
            strings::trim(json),
        ),
{
    strings::text_of_encoded("REFRESH "@ + json);
    reveal_strlit("REFRESH ");
    reveal_strlit("REFRESH");
    let s = "REFRESH "@ + json;
    assert(!strings::white_space(s[0]));
    assert(strings::trim_start(s) == s);
    let word = strings::trim(s);
    strings::trim_end_of_prefix("REFRESH"@, " "@ + json);
    assert("REFRESH"@ + (" "@ + json) =~= s) by {
        reveal_strlit(" ");
    }
    reveal_strlit(" ");
    let tail = strings::trim_end(" "@ + json);
    assert(word == "REFRESH"@ + tail);
    assert("REFRESH"@ =~= word.take(7));
    assert(word.skip(7) =~= tail);
    strings::trim_of_trim_end(" "@ + json);
    assert((" "@ + json).drop_first() =~= json);
    assert(strings::trim_start(" "@ + json) == strings::trim_start(json));
    encoded_is_not_empty(s);
}

proof fn encoded_is_not_empty(s: Seq<char>)
    requires
        s.len() > 0,
    ensures
        vstd::utf8::encode_utf8(s).len() > 0,
{
    vstd::utf8::encode_utf8_decode_utf8(s);
    let b = vstd::utf8::encode_utf8(s);
    if b.len() == 0 {
        assert(vstd::utf8::decode_utf8(b).len() == 0);
    }
}

/// `AUTO_STOP` is a command of the GUI's control socket; the daemon does not know it.
pub proof fn daemon_does_not_know_auto_stop()
    ensures
        request_of_text("AUTO_STOP"@) is Unknown,
{
    reveal_strlit("AUTO_STOP");
    reveal_strlit("REFRESH");
    reveal_strlit("START");
    reveal_strlit("STOP");
    reveal_strlit("CANCEL");
    reveal_strlit("STATUS");
    let s = "AUTO_STOP"@;
    assert(!strings::white_space(s[0]));
    assert(!strings::white_space(s.last()));
    assert(strings::trim(s) == s);
    assert(s[0] != "REFRESH"@[0]);
    assert(s[0] != "START"@[0]);
    assert(s[0] != "STOP"@[0]);
    assert(s[0] != "CANCEL"@[0]);
}

/// Bytes beyond the limit do not count.
pub proof fn only_the_read_part_counts(payload: Seq<u8>)
    requires
        payload.len() > 0,
    ensures
        request_of(payload) == request_of(read_part(payload)),
{
    assert(read_part(read_part(payload)) =~= read_part(payload));
}

/// A request is one of these words, whatever white space is around it, or `REFRESH` with
/// something behind it. Nothing else is known.
pub proof fn which_requests_are_known(text: Seq<char>)
    ensures
        ({
            let word = strings::trim(text);
            let r = request_of_text(text);
            &&& r is Start <==> word == "START"@
            &&& r is Stop <==> word == "STOP"@
            &&& r is Cancel <==> word == "CANCEL"@
            &&& r is Status <==> word == "STATUS"@
            &&& r is Refresh <==> "REFRESH"@.is_prefix_of(word)
            &&& "REFRESH"@.is_prefix_of(word) ==> r == RequestView::Refresh(
                strings::trim(word.skip(7)),
            )
            &&& !(r is Empty)
        }),
{
    reveal_strlit("REFRESH");
    reveal_strlit("START");
    reveal_strlit("STOP");
    reveal_strlit("CANCEL");
    reveal_strlit("STATUS");
    let word = strings::trim(text);
    assert("START"@[0] == 'S' && "STOP"@[0] == 'S' && "STATUS"@[0] == 'S' && "CANCEL"@[0] == 'C');
    assert("REFRESH"@[0] == 'R');
    if "REFRESH"@.is_prefix_of(word) {
        assert(word[0] == "REFRESH"@[0]);
    }
    assert("START"@.len() == 5 && "STOP"@.len() == 4 && "STATUS"@.len() == 6 && "CANCEL"@.len()
        == 6);
}

/// A request of up to 64 KiB is read whole; of a longer one the first 64 KiB are. One without
/// bytes is empty, and no other is.
pub proof fn requests_are_bounded(payload: Seq<u8>)
    ensures
        payload.len() <= 64 * 1024 ==> read_part(payload) == payload,
        payload.len() > 64 * 1024 ==> read_part(payload) == payload.take(65536),
        request_of(payload) is Empty <==> payload.len() == 0,
{
    if payload.len() > 0 {
        which_requests_are_known(strings::text_of_bytes(read_part(payload)));
    }
}

/// What a client is told of a command that the loop took.
pub proof fn answers_of_the_loop(text: String, json: Seq<char>)
    ensures
        reply_text(RequestView::Start, Outcome::Accepted) == "STATUS: RECORDING"@,
        reply_text(RequestView::Stop, Outcome::Answer(text)) == text@,
        reply_text(RequestView::Status, Outcome::Answer(text)) == text@,
        reply_text(RequestView::Refresh(json), Outcome::Accepted) == "OK: Config reloaded"@,
        reply_text(RequestView::Refresh(json), Outcome::Refused(text)) == "ERROR: "@ + text@,
        reply_text(RequestView::Refresh(json), Outcome::BadJson(text))
            == "ERROR: Invalid config JSON: "@ + text@,
        reply_text(RequestView::Stop, Outcome::Dropped)
            == "ERROR: Transcription cancelled or failed"@,
        reply_text(RequestView::Status, Outcome::Dropped) == "ERROR: Failed to get status"@,
        reply_text(RequestView::Refresh(json), Outcome::Dropped)
            == "ERROR: Reload cancelled or failed"@,
{
}

/// What a client is told of a request that never reaches the loop, and of one that the loop no
/// longer takes. A cancel is confirmed in any case.
pub proof fn answers_without_the_loop(request: RequestView, outcome: Outcome)
    ensures
        reply_text(RequestView::Empty, outcome) == "ERROR: empty command"@,
        reply_text(RequestView::Unknown, outcome) == "ERROR: Unknown command"@,
        reply_text(RequestView::Cancel, outcome) == "STATUS: CANCELLED"@,
        request is Start || request is Stop || request is Status || request is Refresh
            ==> reply_text(request, Outcome::ChannelClosed) == "ERROR: Internal channel error"@,
{
}

/// A text that is filled up is the text, then only the filling, and is as wide as its column
/// where it fits.
pub proof fn filled_columns(s: Seq<char>, c: char, width: nat)
    ensures
        padded(s, c, width).take(s.len() as int) == s,
        s.len() <= width ==> padded(s, c, width).len() == width,
        s.len() >= width ==> padded(s, c, width) == s,
        forall|i: int|
            s.len() <= i < padded(s, c, width).len() ==> #[trigger] padded(s, c, width)[i] == c,
{
    assert(padded(s, c, width).take(s.len() as int) =~= s);
}

/// The columns of the status table, for cells that fit them: each begins one place behind the
/// end of the one before, and they are 10, 10, 10, 30, 10, 10 and 15 characters wide.
pub proof fn columns_of_the_table(
    active: Seq<char>,
    pid: Seq<char>,
    kind: Seq<char>,
    model: Seq<char>,
    language: Seq<char>,
    max_seconds: Seq<char>,
    state: Seq<char>,
    c: char,
)
    requires
        active.len() <= 10,
        pid.len() <= 10,
        kind.len() <= 10,
        model.len() <= 30,
        language.len() <= 10,
        max_seconds.len() <= 10,
        state.len() <= 15,
    ensures
        ({
            let t = line(active, pid, kind, model, language, max_seconds, state, c);
            &&& t.len() == 101
            &&& t.subrange(0, active.len() as int) == active
            &&& t.subrange(11, 11 + pid.len() as int) == pid
            &&& t.subrange(22, 22 + kind.len() as int) == kind
            &&& t.subrange(33, 33 + model.len() as int) == model
            &&& t.subrange(64, 64 + language.len() as int) == language
            &&& t.subrange(75, 75 + max_seconds.len() as int) == max_seconds
            &&& t.subrange(86, 86 + state.len() as int) == state
            &&& t[10] == ' ' && t[21] == ' ' && t[32] == ' ' && t[63] == ' ' && t[74] == ' '
                && t[85] == ' '
        }),
{
    reveal_strlit(" ");
    let t = line(active, pid, kind, model, language, max_seconds, state, c);
    assert(t.subrange(0, active.len() as int) =~= active);
    assert(t.subrange(11, 11 + pid.len() as int) =~= pid);
    assert(t.subrange(22, 22 + kind.len() as int) =~= kind);
    assert(t.subrange(33, 33 + model.len() as int) =~= model);
    assert(t.subrange(64, 64 + language.len() as int) =~= language);
    assert(t.subrange(75, 75 + max_seconds.len() as int) =~= max_seconds);
    assert(t.subrange(86, 86 + state.len() as int) =~= state);
}

/// A model identifier of up to 28 characters is shown whole; of a longer one the first 28 are,
/// with an ellipsis behind them.
pub proof fn long_model_names_are_cut(id: Seq<char>)
    ensures
        id.len() <= 28 ==> model_cell(id) == id,
        id.len() > 28 ==> model_cell(id).len() == 29 && model_cell(id).last() == '…' && model_cell(
            id,
        ).drop_last().is_prefix_of(id),
{
    if id.len() > 28 {
        assert(model_cell(id).drop_last() =~= id.take(28));
    }
}

/// What the status display of a daemon shows: one line with whether it is active, its process,
/// model, language, limit and state, and for an active one the whole identifier, path and kind
/// of its model below.
pub proof fn what_the_display_shows(s: StatusResponse)
    ensures
        ({
            let yes = if s.active {
                "YES"@
            } else {
                "NO"@
            };
            let row = line(
                yes,
                strings::decimal(s.pid as nat),
                s.model_kind@,
                model_cell(s.model_id@),
                s.language@,
                strings::decimal(s.max_recording_seconds as nat),
                s.state@,
                ' ',
            ) + "\n"@;
            &&& !s.active ==> display(s) == heading() + row
            &&& s.active ==> display(s) == heading() + row + ("\nFull Model Id:   "@ + s.model_id@
                + "\nResolved Path:   "@ + s.model_path@ + "\nEngine Kind:     "@ + s.model_kind@
                + "\n"@)
        }),
        "Telora Daemon Status\n"@.is_prefix_of(heading()),
{
    let titles = line("ACTIVE"@, "PID"@, "KIND"@, "MODEL"@, "LANG"@, "MAX_SEC"@, "STATE"@, ' ');
    let rule = line(seq![], seq![], seq![], seq![], seq![], seq![], seq![], '-');
    let top = "Telora Daemon Status\n"@;
    assert(heading() =~= top + (titles + "\n"@ + rule + "\n"@));
    assert(top =~= heading().take(top.len() as int));
    if !s.active {
        assert(details(s) =~= seq![]);
        let row = line(
            "NO"@,
            strings::decimal(s.pid as nat),
            s.model_kind@,
            model_cell(s.model_id@),
            s.language@,
            strings::decimal(s.max_recording_seconds as nat),
            s.state@,
            ' ',
        ) + "\n"@;
        assert(display(s) =~= heading() + row);
    } else {
        let row = line(
            "YES"@,
            strings::decimal(s.pid as nat),
            s.model_kind@,
            model_cell(s.model_id@),
            s.language@,
            strings::decimal(s.max_recording_seconds as nat),
            s.state@,
            ' ',
        ) + "\n"@;
        assert(display(s) =~= heading() + row + details(s));
    }
}

/// The heading of the status table: a title, the names of the columns, and a rule of dashes.
pub proof fn what_the_heading_says()
    ensures
        heading() == "Telora Daemon Status\n"@ + line(
            "ACTIVE"@,
            "PID"@,
            "KIND"@,
            "MODEL"@,
            "LANG"@,
            "MAX_SEC"@,
            "STATE"@,
            ' ',
        ) + "\n"@ + line(
            Seq::empty(),
            Seq::empty(),
            Seq::empty(),
            Seq::empty(),
            Seq::empty(),
            Seq::empty(),
            Seq::empty(),
            '-',
        ) + "\n"@,
{
}

/// The bytes of a request are read as text, the first 64 KiB of them.
pub proof fn requests_are_texts(payload: Seq<u8>)
    requires
        payload.len() > 0,
    ensures
        payload.len() <= 65536 ==> request_of(payload) == request_of_text(
            strings::text_of_bytes(payload),
        ),
        payload.len() > 65536 ==> request_of(payload) == request_of_text(
            strings::text_of_bytes(payload.take(65536)),
        ),
{
}

} // verus!
