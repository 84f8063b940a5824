//! The daemon's configuration.

use crate::strings;
use vstd::prelude::*;
use vstd::string::*;

verus! {

/// Speech-to-text settings, at the top level of `telora.toml`.
#[derive(Debug)]
pub struct SttConfig {
    /// Model identifier, `org/repo` or `org/repo/file`.
    pub model_id: String,
    /// Engine family.
    pub model_kind: String,
    /// Local file or directory that the engine was loaded from.
    pub model_path: String,
    /// Language, ISO 639-1.
    pub language: String,
    /// Longest recording, in seconds.
    pub max_recording_seconds: u32,
}

/// The values of an [`SttConfig`].
#[verifier::ext_equal]
pub struct SttView {
    pub model_id: Seq<char>,
    pub model_kind: Seq<char>,
    pub model_path: Seq<char>,
    pub language: Seq<char>,
    pub max_recording_seconds: u32,
}

impl View for SttConfig {
    type V = SttView;

    open spec fn view(&self) -> SttView {
        SttView {
            model_id: self.model_id@,
            model_kind: self.model_kind@,
            model_path: self.model_path@,
            language: self.language@,
            max_recording_seconds: self.max_recording_seconds,
        }
    }
}

impl Clone for SttConfig {
    fn clone(&self) -> (r: Self)
        ensures
            r@ == self@,
    {
        SttConfig {
            model_id: self.model_id.clone(),
            model_kind: self.model_kind.clone(),
            model_path: self.model_path.clone(),
            language: self.language.clone(),
            max_recording_seconds: self.max_recording_seconds,
        }
    }
}

impl Default for SttConfig {
    fn default() -> (r: Self)
        ensures
            r@ == (SttView {
                model_id: seq![],
                model_kind: seq![],
                model_path: seq![],
                language: seq![],
                max_recording_seconds: 0,
            }),
    {
        SttConfig {
            model_id: String::new(),
            model_kind: String::new(),
            model_path: String::new(),
            language: String::new(),
            max_recording_seconds: 0,
        }
    }
}

/// The `[paths]` section of `telora.toml`.
#[derive(Debug)]
pub struct PathsConfig {
    pub socket_dir: Option<String>,
    pub daemon_socket: Option<String>,
    pub control_socket: Option<String>,
}

impl Default for PathsConfig {
    fn default() -> (r: Self)
        ensures
            r == (PathsConfig { socket_dir: None, daemon_socket: None, control_socket: None }),
    {
        PathsConfig { socket_dir: None, daemon_socket: None, control_socket: None }
    }
}

/// The whole daemon configuration.
#[derive(Debug)]
pub struct DaemonConfig {
    pub stt: SttConfig,
    pub paths: PathsConfig,
}

/// The settings of a daemon that nobody has configured.
pub open spec fn default_stt() -> SttView {
    SttView {
        model_id: "ggerganov/whisper.cpp/ggml-base.bin"@,
        model_kind: "whisper"@,
        model_path: seq![],
        language: "es"@,
        max_recording_seconds: 300,
    }
}

/// The settings used when the configuration supplies none.
pub fn default_stt_config() -> (r: SttConfig)
    ensures
        r@ == default_stt(),
{
    SttConfig {
        model_id: "ggerganov/whisper.cpp/ggml-base.bin".to_owned(),
        model_kind: "whisper".to_owned(),
        model_path: String::new(),
        language: "es".to_owned(),
        max_recording_seconds: 300,
    }
}

impl Default for DaemonConfig {
    fn default() -> (r: Self)
        ensures
            r.stt@ == default_stt(),
            r.stt@.max_recording_seconds == 300,
            r.stt@.language == "es"@,
            r.paths == (PathsConfig { socket_dir: None, daemon_socket: None, control_socket: None }),
    {
        DaemonConfig { stt: default_stt_config(), paths: PathsConfig::default() }
    }
}

impl PathsConfig {
    /// The overrides as the path resolver takes them.
    pub fn overrides(&self) -> (r: crate::paths::PathsConfig)
        ensures
            crate::paths::given_text(r.socket_dir) == crate::paths::given_text(self.socket_dir),
            crate::paths::given_text(r.daemon_socket) == crate::paths::given_text(
                self.daemon_socket,
            ),
            crate::paths::given_text(r.control_socket) == crate::paths::given_text(
                self.control_socket,
            ),
            text_of(r.socket_dir) == text_of(self.socket_dir),
            text_of(r.daemon_socket) == text_of(self.daemon_socket),
            text_of(r.control_socket) == text_of(self.control_socket),
    {
        crate::paths::PathsConfig {
            socket_dir: copy_text(&self.socket_dir),
            daemon_socket: copy_text(&self.daemon_socket),
            control_socket: copy_text(&self.control_socket),
        }
    }
}

/// The text of an optional value.
pub open spec fn text_of(o: Option<String>) -> Option<Seq<char>> {
    match o {
        Some(s) => Some(s@),
        None => None,
    }
}

/// A copy of an optional text.
pub fn copy_text(o: &Option<String>) -> (r: Option<String>)
    ensures
        r == *o,
{
    match o {
        Some(s) => Some(s.clone()),
        None => None,
    }
}

/// What the command line overrides.
#[derive(Debug)]
pub struct Overrides {
    pub model_id: Option<String>,
    pub model_kind: Option<String>,
    pub language: Option<String>,
    pub max_recording_seconds: Option<u32>,
}

/// The override where there is one, else the value that was configured.
pub open spec fn overridden(o: Option<String>, configured: Seq<char>) -> Seq<char> {
    match o {
        Some(s) => s@,
        None => configured,
    }
}

/// The settings after the command line was applied. A configuration that names only a model
/// path uses that path as the model identifier.
pub open spec fn effective(stt: SttView, o: Overrides) -> SttView {
    let id = overridden(o.model_id, stt.model_id);
    SttView {
        model_id: if id.len() == 0 {
            stt.model_path
        } else {
            id
        },
        model_kind: overridden(o.model_kind, stt.model_kind),
        model_path: stt.model_path,
        language: overridden(o.language, stt.language),
        max_recording_seconds: match o.max_recording_seconds {
            Some(n) => n,
            None => stt.max_recording_seconds,
        },
    }
}

fn pick(o: &Option<String>, configured: &String) -> (r: String)
    ensures
        r@ == overridden(*o, configured@),
{
    match o {
        Some(s) => s.clone(),
        None => configured.clone(),
    }
}

/// Completes a configuration that was read: command-line values win, and a configuration that
/// names only a model path uses that path as the model identifier. The `[paths]` section stays.
pub fn load_config(read: DaemonConfig, overrides: &Overrides) -> (r: DaemonConfig)
    ensures
        r.stt@ == effective(read.stt@, *overrides),
        r.paths == read.paths,
{
    let id: String = pick(&overrides.model_id, &read.stt.model_id);
    let id_chars: Vec<char> = strings::chars_of(id.as_str());
    let model_id: String = if id_chars.len() == 0 {
        read.stt.model_path.clone()
    } else {
        id
    };
    let stt: SttConfig = SttConfig {
        model_id,
        model_kind: pick(&overrides.model_kind, &read.stt.model_kind),
        model_path: read.stt.model_path.clone(),
        language: pick(&overrides.language, &read.stt.language),
        max_recording_seconds: match overrides.max_recording_seconds {
            Some(n) => n,
            None => read.stt.max_recording_seconds,
        },
    };
    DaemonConfig { stt, paths: read.paths }
}

/// The configuration files, the one that counts least first; only an explicit one has to exist.
pub open spec fn files(home: Option<Seq<char>>, explicit: Option<Seq<char>>) -> Seq<(
    Seq<char>,
    bool,
)> {
    let h = match home {
        Some(h) => h,
        None => "/root"@,
    };
    let base = seq![
        ("/etc/telora.toml"@, false),
        (h + "/.config/telora/config.toml"@, false),
    ];
    match explicit {
        Some(p) => base.push((p, true)),
        None => base,
    }
}

/// The view of a list of files with their flags.
pub open spec fn file_views(v: Seq<(String, bool)>) -> Seq<(Seq<char>, bool)> {
    v.map_values(|f: (String, bool)| (f.0@, f.1))
}

/// The configuration files to read, the one that counts least first, each with whether it has
/// to exist. Environment variables count more than any of them.
pub fn config_files(home: &Option<String>, explicit: &Option<String>) -> (r: Vec<(String, bool)>)
    ensures
        file_views(r@) == files(text_of(*home), text_of(*explicit)),
{
    let mut out: Vec<(String, bool)> = Vec::new();
    out.push(("/etc/telora.toml".to_owned(), false));
    let base: String = match home {
        Some(h) => h.clone(),
        None => "/root".to_owned(),
    };
    out.push((strings::cat(base.as_str(), "/.config/telora/config.toml"), false));
    match explicit {
        Some(p) => out.push((p.clone(), true)),
        None => {},
    }
    assert(file_views(out@) =~= files(text_of(*home), text_of(*explicit)));
    out
}

/// What stands at the model cache directory.
#[derive(Clone, Copy, Debug, PartialEq, Eq, Structural)]
pub enum CacheDirState {
    Directory { mode: u32 },
    NotADirectory,
    Missing,
    Unreadable,
}

/// What is to be done about the model cache directory.
#[derive(Clone, Copy, Debug, PartialEq, Eq, Structural)]
pub enum CacheDirAction {
    /// It is private already.
    Leave,
    /// Warn that group or others can reach it, and leave it.
    WarnShared { mode: u32 },
    /// Warn that it is no directory, and leave it.
    WarnNotADirectory,
    /// Create it with mode `0o700`.
    Create,
    /// Warn that it cannot be inspected.
    WarnUnreadable,
}

/// What is to be done about the model cache directory: an existing one is never changed, a
/// missing one is created private.
pub fn secure_voxora_cache_dir(state: CacheDirState) -> (r: CacheDirAction)
    ensures
        r == match state {
            CacheDirState::Directory { mode } => if crate::paths::private_mode(mode) {
                CacheDirAction::Leave
            } else {
                CacheDirAction::WarnShared { mode: mode & 0o777 }
            },
            CacheDirState::NotADirectory => CacheDirAction::WarnNotADirectory,
            CacheDirState::Missing => CacheDirAction::Create,
            CacheDirState::Unreadable => CacheDirAction::WarnUnreadable,
        },
        state matches CacheDirState::Directory { mode } ==> (r == CacheDirAction::Leave <==> mode
            & 0o077 == 0),
{
    match state {
        CacheDirState::Directory { mode } => if mode & 0o077 != 0 {
            CacheDirAction::WarnShared { mode: mode & 0o777 }
        } else {
            CacheDirAction::Leave
        },
        CacheDirState::NotADirectory => CacheDirAction::WarnNotADirectory,
        CacheDirState::Missing => CacheDirAction::Create,
        CacheDirState::Unreadable => CacheDirAction::WarnUnreadable,
    }
}

/// Without command-line values a configuration with a model identifier stays as it was read.
pub proof fn configuration_survives_without_overrides(stt: SttView)
    requires
        stt.model_id.len() > 0,
    ensures
        effective(
            stt,
            Overrides {
                model_id: None,
                model_kind: None,
                language: None,
                max_recording_seconds: None,
            },
        ) == stt,
{
}

/// A daemon that nobody has configured listens for Spanish, with the base Whisper model, for
/// five minutes at most.
pub proof fn unconfigured_settings()
    ensures
        default_stt().model_id == "ggerganov/whisper.cpp/ggml-base.bin"@,
        default_stt().model_kind == "whisper"@,
        default_stt().model_path.len() == 0,
        default_stt().language == "es"@,
        default_stt().max_recording_seconds == 5 * 60,
{
}

/// What is given on the command line wins over what was read, and nothing else changes. A model
/// path takes the place of a model identifier that is empty, from wherever it came.
pub proof fn command_line_wins(stt: SttView, o: Overrides)
    ensures
        ({
            let r = effective(stt, o);
            let id = match o.model_id {
                Some(s) => s@,
                None => stt.model_id,
            };
            &&& id.len() > 0 ==> r.model_id == id
            &&& id.len() == 0 ==> r.model_id == stt.model_path
            &&& o.model_kind is Some ==> r.model_kind == o.model_kind->0@
            &&& o.model_kind is None ==> r.model_kind == stt.model_kind
            &&& o.language is Some ==> r.language == o.language->0@
            &&& o.language is None ==> r.language == stt.language
            &&& o.max_recording_seconds is Some ==> r.max_recording_seconds
                == o.max_recording_seconds->0
            &&& o.max_recording_seconds is None ==> r.max_recording_seconds
                == stt.max_recording_seconds
            &&& r.model_path == stt.model_path
        }),
{
}

/// The system-wide file counts least, then the user's, then the one that the command line
/// names; only that one has to exist. Without a home directory the user's file is that of root.
pub proof fn files_in_order(home: Seq<char>, explicit: Seq<char>)
    ensures
        files(Some(home), Some(explicit)) == seq![
            ("/etc/telora.toml"@, false),
            (home + "/.config/telora/config.toml"@, false),
            (explicit, true),
        ],
        files(Some(home), None) == seq![
            ("/etc/telora.toml"@, false),
            (home + "/.config/telora/config.toml"@, false),
        ],
        files(None, None) == seq![
            ("/etc/telora.toml"@, false),
            ("/root"@ + "/.config/telora/config.toml"@, false),
        ],
{
}

} // verus!
