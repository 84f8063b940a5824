//! Socket and runtime path resolution shared by the daemon, the GUI and the control client.
//!
//! All socket paths flow through this module. The directory is the first that applies of:
//!
//!   1. the parent of a socket path given in the environment;
//!   2. `socket_dir` from the user configuration, when it is set;
//!   3. `$XDG_RUNTIME_DIR/telora`, when that directory is writable;
//!   4. `/run/user/<uid>/telora`, when `/run/user/<uid>` is writable;
//!   5. `/tmp/telora-<uid>`, the last resort.
//!
//! The directory has to end up with a mode that gives group and others nothing.

use crate::strings;
use crate::unix_path;
use crate::unix_path::UnixPath;
use vstd::prelude::*;
use vstd::string::*;

verus! {

/// The size of `sun_path` on Linux, with its trailing NUL.
pub const SUN_PATH_MAX: usize = 108;

/// The mode of a directory that holds sockets.
pub const DIR_MODE: u32 = 0o700;

/// User-supplied path overrides from the `[paths]` section of `telora.toml`.
#[derive(Debug)]
pub struct PathsConfig {
    pub socket_dir: Option<String>,
    pub daemon_socket: Option<String>,
    pub control_socket: Option<String>,
}

impl Default for PathsConfig {
    fn default() -> (r: Self)
        ensures
            r == (PathsConfig { socket_dir: None, daemon_socket: None, control_socket: None }),
    {
        PathsConfig { socket_dir: None, daemon_socket: None, control_socket: None }
    }
}

/// What the process finds in its environment.
#[derive(Debug)]
pub struct Runtime {
    /// `TELORA_DAEMON_SOCKET`.
    pub daemon_socket: Option<UnixPath>,
    /// `TELORA_CONTROL_SOCKET`.
    pub control_socket: Option<UnixPath>,
    /// `XDG_RUNTIME_DIR`, when it is set and UTF-8.
    pub xdg_runtime_dir: Option<String>,
    /// Whether the directory that `XDG_RUNTIME_DIR` names exists and is writable.
    pub xdg_writable: bool,
    /// The numeric user id.
    pub uid: u32,
    /// Whether [`run_user_dir`] exists and is writable.
    pub run_user_writable: bool,
}

/// The concrete socket paths.
#[derive(Debug)]
pub struct ResolvedPaths {
    pub socket_dir: UnixPath,
    pub daemon_sock: UnixPath,
    pub control_sock: UnixPath,
}

/// What came of creating a directory with [`DIR_MODE`].
#[derive(Debug)]
pub enum DirOutcome {
    /// It could not be created.
    CreateFailed(String),
    /// It could not be inspected, or its mode could not be set.
    Failed(String),
    /// It exists, with this mode.
    Mode(u32),
}

/// Why a directory is not fit to hold sockets.
#[derive(Debug)]
pub enum DirProblem {
    /// It could not be created.
    CreateFailed { dir: UnixPath, reason: String },
    /// It could not be inspected, or its mode could not be set.
    Failed { reason: String },
    /// Its mode gives something to group or others.
    Insecure { dir: UnixPath, mode: u32 },
}

/// One of the two sockets.
#[derive(Clone, Copy, Debug, PartialEq, Eq, Structural)]
pub enum Endpoint {
    Daemon,
    Control,
}

/// Why no socket paths could be resolved.
#[derive(Debug)]
pub enum PathsError {
    /// A socket path does not fit `sun_path`.
    TooLong { endpoint: Endpoint, path: UnixPath },
    /// The socket directory is not usable.
    Directory { dir: UnixPath, problem: DirProblem },
}

/// A text override that counts: set and not empty.
pub open spec fn given_text(o: Option<String>) -> Option<Seq<u8>> {
    match o {
        Some(s) => if s@.len() > 0 {
            Some(vstd::utf8::encode_utf8(s@))
        } else {
            None
        },
        None => None,
    }
}

/// A path override that counts: set and not empty.
pub open spec fn given_path(o: Option<UnixPath>) -> Option<Seq<u8>> {
    match o {
        Some(p) => if p@.len() > 0 {
            Some(p@)
        } else {
            None
        },
        None => None,
    }
}

/// The first of the two that is there.
pub open spec fn first_of(a: Option<Seq<u8>>, b: Option<Seq<u8>>) -> Option<Seq<u8>> {
    if a is Some {
        a
    } else {
        b
    }
}

/// `/run/user/<uid>`.
pub open spec fn run_user(uid: u32) -> Seq<u8> {
    vstd::utf8::encode_utf8("/run/user/"@ + strings::decimal(uid as nat))
}

/// `/tmp/telora-<uid>`.
pub open spec fn last_resort(uid: u32) -> Seq<u8> {
    vstd::utf8::encode_utf8("/tmp/telora-"@ + strings::decimal(uid as nat))
}

/// `p` extended by a name.
pub open spec fn under(p: Seq<u8>, name: Seq<char>) -> Seq<u8> {
    unix_path::join(p, vstd::utf8::encode_utf8(name))
}

/// The parent of a path, when it has one that is not empty.
pub open spec fn real_parent(p: Seq<u8>) -> Option<Seq<u8>> {
    match unix_path::parent(p) {
        Some(q) => if q.len() > 0 {
            Some(q)
        } else {
            None
        },
        None => None,
    }
}

/// The directory when neither the environment nor the configuration names one.
pub open spec fn fallback_dir(env: Runtime) -> Seq<u8> {
    let xdg = given_text(env.xdg_runtime_dir);
    if xdg is Some && env.xdg_writable {
        under(xdg.unwrap(), "telora"@)
    } else if env.run_user_writable {
        under(run_user(env.uid), "telora"@)
    } else {
        last_resort(env.uid)
    }
}

/// The directory that the sockets live in.
pub open spec fn chosen_dir(cfg: PathsConfig, env: Runtime) -> Seq<u8> {
    let from_env = first_of(given_path(env.daemon_socket), given_path(env.control_socket));
    if from_env is Some && real_parent(from_env.unwrap()) is Some {
        real_parent(from_env.unwrap()).unwrap()
    } else if given_text(cfg.socket_dir) is Some {
        given_text(cfg.socket_dir).unwrap()
    } else {
        fallback_dir(env)
    }
}

/// The daemon socket: from the environment, else from the configuration, else `daemon.sock` in
/// the directory.
pub open spec fn chosen_daemon(cfg: PathsConfig, env: Runtime) -> Seq<u8> {
    match first_of(given_path(env.daemon_socket), given_text(cfg.daemon_socket)) {
        Some(p) => p,
        None => under(chosen_dir(cfg, env), "daemon.sock"@),
    }
}

/// The control socket: from the environment, else from the configuration, else `control.sock`
/// in the directory.
pub open spec fn chosen_control(cfg: PathsConfig, env: Runtime) -> Seq<u8> {
    match first_of(given_path(env.control_socket), given_text(cfg.control_socket)) {
        Some(p) => p,
        None => under(chosen_dir(cfg, env), "control.sock"@),
    }
}

/// The path fits the kernel's `sun_path`.
pub open spec fn fits_sun_path(p: Seq<u8>) -> bool {
    p.len() < SUN_PATH_MAX
}

/// The mode gives nothing to group and others.
pub open spec fn private_mode(mode: u32) -> bool {
    mode & 0o077 == 0
}

/// The permissions are those that a socket directory is created with.
pub open spec fn dir_mode(mode: u32) -> bool {
    mode & 0o777 == DIR_MODE
}

/// The socket directory exists with its mode.
pub open spec fn dir_ready(outcome: DirOutcome) -> bool {
    outcome matches DirOutcome::Mode(m) && dir_mode(m)
}

/// The resolver succeeds: both paths fit, and the directory is ready.
pub open spec fn resolves(cfg: PathsConfig, env: Runtime, outcome: DirOutcome) -> bool {
    fits_sun_path(chosen_daemon(cfg, env)) && fits_sun_path(chosen_control(cfg, env)) && dir_ready(
        outcome,
    )
}

/// The problem reported for a directory that is not ready.
pub open spec fn reports(problem: DirProblem, dir: Seq<u8>, outcome: DirOutcome) -> bool {
    match outcome {
        DirOutcome::CreateFailed(why) => problem matches DirProblem::CreateFailed { dir: d, reason }
            && d@ == dir && reason@ == why@,
        DirOutcome::Failed(why) => problem matches DirProblem::Failed { reason } && reason@ == why@,
        DirOutcome::Mode(m) => problem matches DirProblem::Insecure { dir: d, mode } && d@ == dir
            && mode == m & 0o777,
    }
}

fn given_path_of(o: &Option<UnixPath>) -> (r: Option<UnixPath>)
    ensures
        r matches Some(p) ==> given_path(*o) == Some(p@),
        r is None ==> given_path(*o) is None,
{
    match o {
        Some(p) => if p.is_empty() {
            None
        } else {
            Some(p.clone())
        },
        None => None,
    }
}

/// A setting as a path, when it is set and not empty.
pub(crate) fn given_text_of(o: &Option<String>) -> (r: Option<UnixPath>)
    ensures
        r matches Some(p) ==> given_text(*o) == Some(p@),
        r is None ==> given_text(*o) is None,
{
    match o {
        Some(s) => {
            let chars: Vec<char> = strings::chars_of(s.as_str());
            if chars.len() == 0 {
                None
            } else {
                Some(UnixPath::from_text(s.as_str()))
            }
        },
        None => None,
    }
}

/// `/run/user/<uid>`, the directory that the session manager gives a user.
pub fn run_user_dir(uid: u32) -> (r: UnixPath)
    ensures
        r@ == run_user(uid),
{
    UnixPath::from_text(strings::cat("/run/user/", strings::decimal_of(uid as u64).as_str()).as_str())
}

/// `/tmp/telora-<uid>`, the directory of last resort.
pub fn last_resort_dir(uid: u32) -> (r: UnixPath)
    ensures
        r@ == last_resort(uid),
{
    UnixPath::from_text(
        strings::cat("/tmp/telora-", strings::decimal_of(uid as u64).as_str()).as_str(),
    )
}

/// Path overrides with nothing set.
pub fn default_paths_config() -> (r: PathsConfig)
    ensures
        r == (PathsConfig { socket_dir: None, daemon_socket: None, control_socket: None }),
{
    PathsConfig::default()
}

/// The parent directory of a path, when it has one that is not empty.
pub fn real_parent_of(path: &UnixPath) -> (r: Option<UnixPath>)
    ensures
        r matches Some(p) ==> real_parent(path@) == Some(p@),
        r is None ==> real_parent(path@) is None,
{
    match path.parent() {
        Some(p) => if p.is_empty() {
            None
        } else {
            Some(p)
        },
        None => None,
    }
}

/// The directory below the runtime directory of the user, or the last resort.
pub fn pick_fallback_dir(env: &Runtime) -> (r: UnixPath)
    ensures
        r@ == fallback_dir(*env),
{
    if let Some(xdg) = given_text_of(&env.xdg_runtime_dir) {
        if env.xdg_writable {
            return xdg.join_text("telora");
        }
    }
    if env.run_user_writable {
        return run_user_dir(env.uid).join_text("telora");
    }
    last_resort_dir(env.uid)
}

/// The directory that the sockets live in.
pub fn pick_socket_dir(cfg: &PathsConfig, env: &Runtime) -> (r: UnixPath)
    ensures
        r@ == chosen_dir(*cfg, *env),
{
    let from_env: Option<UnixPath> = match given_path_of(&env.daemon_socket) {
        Some(p) => Some(p),
        None => given_path_of(&env.control_socket),
    };
    if let Some(p) = from_env {
        if let Some(dir) = real_parent_of(&p) {
            return dir;
        }
    }
    if let Some(dir) = given_text_of(&cfg.socket_dir) {
        return dir;
    }
    pick_fallback_dir(env)
}

/// The control socket: the one that the environment names, else the one that the configuration
/// names, else the one in the socket directory.
pub fn pick_control_socket(cfg: &PathsConfig, env: &Runtime) -> (r: UnixPath)
    ensures
        r@ == chosen_control(*cfg, *env),
{
    match given_path_of(&env.control_socket) {
        Some(p) => p,
        None => match given_text_of(&cfg.control_socket) {
            Some(p) => p,
            None => pick_socket_dir(cfg, env).join_text("control.sock"),
        },
    }
}

/// Whether a Unix-socket path fits the kernel's `sun_path` limit.
pub fn validate_unix_socket_path(path: &UnixPath) -> (r: bool)
    ensures
        r == fits_sun_path(path@),
        r == (path@.len() < 108),
{
    path.bytes.len() < SUN_PATH_MAX
}

/// Whether `dir` is fit to hold sockets, after it was created as `outcome` says.
pub fn ensure_dir_0700(dir: &UnixPath, outcome: &DirOutcome) -> (r: Result<(), DirProblem>)
    ensures
        r is Ok <==> dir_ready(*outcome),
        r is Ok <==> (*outcome matches DirOutcome::Mode(m) && m & 0o777 == 0o700),
        r matches Err(e) ==> reports(e, dir@, *outcome),
        r matches Err(e) ==> match *outcome {
            DirOutcome::CreateFailed(why) => e matches DirProblem::CreateFailed { dir: d, reason }
                && d@ == dir@ && reason@ == why@,
            DirOutcome::Failed(why) => e matches DirProblem::Failed { reason } && reason@ == why@,
            DirOutcome::Mode(m) => e matches DirProblem::Insecure { dir: d, mode } && d@ == dir@
                && mode == m & 0o777,
        },
{
    match outcome {
        DirOutcome::CreateFailed(why) => Err(
            DirProblem::CreateFailed { dir: dir.clone(), reason: why.clone() },
        ),
        DirOutcome::Failed(why) => Err(DirProblem::Failed { reason: why.clone() }),
        DirOutcome::Mode(m) => if *m & 0o777 != DIR_MODE {
            Err(DirProblem::Insecure { dir: dir.clone(), mode: *m & 0o777 })
        } else {
            Ok(())
        },
    }
}

/// Chooses the socket paths, before anything is created. The first path that does not fit
/// `sun_path` is reported, the daemon's before the control socket's.
pub fn plan(cfg: &PathsConfig, env: &Runtime) -> (r: Result<ResolvedPaths, PathsError>)
    ensures
        r is Ok <==> fits_sun_path(chosen_daemon(*cfg, *env)) && fits_sun_path(
            chosen_control(*cfg, *env),
        ),
        r is Ok <==> chosen_daemon(*cfg, *env).len() < 108 && chosen_control(*cfg, *env).len()
            < 108,
        r matches Ok(p) ==> p.socket_dir@ == chosen_dir(*cfg, *env) && p.daemon_sock@
            == chosen_daemon(*cfg, *env) && p.control_sock@ == chosen_control(*cfg, *env),
        r matches Err(e) ==> (e matches PathsError::TooLong { endpoint, path } && if fits_sun_path(
            chosen_daemon(*cfg, *env),
        ) {
            endpoint == Endpoint::Control && path@ == chosen_control(*cfg, *env)
        } else {
            endpoint == Endpoint::Daemon && path@ == chosen_daemon(*cfg, *env)
        }),
{
    let socket_dir: UnixPath = pick_socket_dir(cfg, env);
    let daemon_sock: UnixPath = match given_path_of(&env.daemon_socket) {
        Some(p) => p,
        None => match given_text_of(&cfg.daemon_socket) {
            Some(p) => p,
            None => socket_dir.join_text("daemon.sock"),
        },
    };
    let control_sock: UnixPath = pick_control_socket(cfg, env);
    if !validate_unix_socket_path(&daemon_sock) {
        return Err(PathsError::TooLong { endpoint: Endpoint::Daemon, path: daemon_sock });
    }
    if !validate_unix_socket_path(&control_sock) {
        return Err(PathsError::TooLong { endpoint: Endpoint::Control, path: control_sock });
    }
    Ok(ResolvedPaths { socket_dir, daemon_sock, control_sock })
}

/// Resolves the socket paths. `outcome` tells what came of creating the directory that
/// [`plan`] chose; it counts only when both paths fit.
pub fn resolve(cfg: &PathsConfig, env: &Runtime, outcome: &DirOutcome) -> (r: Result<
    ResolvedPaths,
    PathsError,
>)
    ensures
        r is Ok <==> resolves(*cfg, *env, *outcome),
        r is Ok <==> chosen_daemon(*cfg, *env).len() < 108 && chosen_control(*cfg, *env).len()
            < 108 && (*outcome matches DirOutcome::Mode(m) && m & 0o777 == 0o700),
        r matches Ok(p) ==> p.socket_dir@ == chosen_dir(*cfg, *env) && p.daemon_sock@
            == chosen_daemon(*cfg, *env) && p.control_sock@ == chosen_control(*cfg, *env),
        r matches Err(e) ==> match e {
            PathsError::TooLong { endpoint, path } => match endpoint {
                Endpoint::Daemon => path@ == chosen_daemon(*cfg, *env) && !fits_sun_path(path@),
                Endpoint::Control => path@ == chosen_control(*cfg, *env) && !fits_sun_path(path@)
                    && fits_sun_path(chosen_daemon(*cfg, *env)),
            },
            PathsError::Directory { dir, problem } => dir@ == chosen_dir(*cfg, *env) && reports(
                problem,
                dir@,
                *outcome,
            ) && fits_sun_path(chosen_daemon(*cfg, *env)) && fits_sun_path(
                chosen_control(*cfg, *env),
            ),
        },
{
    match plan(cfg, env) {
        Err(e) => Err(e),
        Ok(p) => match ensure_dir_0700(&p.socket_dir, outcome) {
            Ok(()) => Ok(p),
            Err(problem) => Err(PathsError::Directory { dir: p.socket_dir, problem }),
        },
    }
}

/// The daemon socket without configuration; `/tmp/telora-<uid>/daemon.sock` when the resolver
/// fails.
pub fn daemon_socket_path(env: &Runtime, outcome: &DirOutcome) -> (r: UnixPath)
    ensures
        ({
            let cfg = PathsConfig { socket_dir: None, daemon_socket: None, control_socket: None };
            r@ == if resolves(cfg, *env, *outcome) {
                chosen_daemon(cfg, *env)
            } else {
                under(last_resort(env.uid), "daemon.sock"@)
            }
        }),
{
    match resolve(&default_paths_config(), env, outcome) {
        Ok(p) => p.daemon_sock,
        Err(_) => last_resort_dir(env.uid).join_text("daemon.sock"),
    }
}

/// The control socket without configuration; `/tmp/telora-<uid>/control.sock` when the
/// resolver fails.
pub fn control_socket_path(env: &Runtime, outcome: &DirOutcome) -> (r: UnixPath)
    ensures
        ({
            let cfg = PathsConfig { socket_dir: None, daemon_socket: None, control_socket: None };
            r@ == if resolves(cfg, *env, *outcome) {
                chosen_control(cfg, *env)
            } else {
                under(last_resort(env.uid), "control.sock"@)
            }
        }),
{
    match resolve(&default_paths_config(), env, outcome) {
        Ok(p) => p.control_sock,
        Err(_) => last_resort_dir(env.uid).join_text("control.sock"),
    }
}

/// What is said of a directory problem.
pub open spec fn problem_text(p: DirProblem) -> Seq<char> {
    match p {
        DirProblem::CreateFailed { dir, reason } => "DirBuilder::create("@ + unix_path::shown(dir@)
            + "): "@ + reason@,
        DirProblem::Failed { reason } => reason@,
        DirProblem::Insecure { dir, mode } => "socket directory "@ + unix_path::shown(dir@)
            + " has insecure mode "@ + strings::octal(mode as nat) + " (expected 0o700)"@,
    }
}

/// What is said of a failed resolution.
pub open spec fn error_text(e: PathsError) -> Seq<char> {
    match e {
        PathsError::TooLong { endpoint, path } => "validating "@ + (match endpoint {
            Endpoint::Daemon => "daemon"@,
            Endpoint::Control => "control"@,
        }) + " socket path "@ + unix_path::shown(path@) + ": socket path "@ + unix_path::shown(
            path@,
        ) + " exceeds Linux sun_path limit ("@ + strings::decimal(path@.len()) + " bytes, limit "@
            + strings::decimal(SUN_PATH_MAX as nat) + ")"@,
        PathsError::Directory { dir, problem } => "creating socket directory "@ + unix_path::shown(
            dir@,
        ) + ": "@ + problem_text(problem),
    }
}

impl DirProblem {
    /// The text shown to the operator.
    pub fn message(&self) -> (r: String)
        ensures
            r@ == problem_text(*self),
    {
        match self {
            DirProblem::CreateFailed { dir, reason } => {
                let mut out: String = "DirBuilder::create(".to_owned();
                out.append(dir.to_text().as_str());
                out.append("): ");
                out.append(reason.as_str());
                out
            },
            DirProblem::Failed { reason } => reason.clone(),
            DirProblem::Insecure { dir, mode } => {
                let mut out: String = "socket directory ".to_owned();
                out.append(dir.to_text().as_str());
                out.append(" has insecure mode ");
                out.append(strings::octal_of(*mode as u64).as_str());
                out.append(" (expected 0o700)");
                out
            },
        }
    }
}

impl PathsError {
    /// The text shown to the operator.
    pub fn message(&self) -> (r: String)
        ensures
            r@ == error_text(*self),
    {
        match self {
            PathsError::TooLong { endpoint, path } => {
                let shown: String = path.to_text();
                let mut out: String = "validating ".to_owned();
                match endpoint {
                    Endpoint::Daemon => out.append("daemon"),
                    Endpoint::Control => out.append("control"),
                }
                out.append(" socket path ");
                out.append(shown.as_str());
                out.append(": socket path ");
                out.append(shown.as_str());
                out.append(" exceeds Linux sun_path limit (");
                out.append(strings::decimal_of(path.bytes.len() as u64).as_str());
                out.append(" bytes, limit ");
                out.append(strings::decimal_of(SUN_PATH_MAX as u64).as_str());
                out.append(")");
                out
            },
            PathsError::Directory { dir, problem } => {
                let mut out: String = "creating socket directory ".to_owned();
                out.append(dir.to_text().as_str());
                out.append(": ");
                out.append(problem.message().as_str());
                out
            },
        }
    }
}

/// Socket paths given in the environment win over every configuration.
pub proof fn environment_wins(cfg: PathsConfig, env: Runtime)
    ensures
        given_path(env.daemon_socket) is Some ==> Some(chosen_daemon(cfg, env)) == given_path(
            env.daemon_socket,
        ),
        given_path(env.control_socket) is Some ==> Some(chosen_control(cfg, env)) == given_path(
            env.control_socket,
        ),
{
}

/// Without overrides of single sockets, both sockets are entries of the socket directory.
pub proof fn sockets_live_in_the_directory(cfg: PathsConfig, env: Runtime)
    requires
        given_path(env.daemon_socket) is None,
        given_path(env.control_socket) is None,
        given_text(cfg.daemon_socket) is None,
        given_text(cfg.control_socket) is None,
    ensures
        ({
            let dir = unix_path::components(chosen_dir(cfg, env));
            &&& unix_path::components(chosen_daemon(cfg, env)) == dir.push(
                vstd::utf8::encode_utf8("daemon.sock"@),
            )
            &&& unix_path::components(chosen_control(cfg, env)) == dir.push(
                vstd::utf8::encode_utf8("control.sock"@),
            )
        }),
        chosen_daemon(cfg, env) != chosen_control(cfg, env),
{
    reveal_strlit("daemon.sock");
    reveal_strlit("control.sock");
    unix_path::ascii_text_is_plain("daemon.sock"@);
    unix_path::ascii_text_is_plain("control.sock"@);
    let dir = chosen_dir(cfg, env);
    unix_path::join_adds_component(dir, vstd::utf8::encode_utf8("daemon.sock"@));
    unix_path::join_adds_component(dir, vstd::utf8::encode_utf8("control.sock"@));
    let c = unix_path::components(dir);
    let a = vstd::utf8::encode_utf8("daemon.sock"@);
    let b = vstd::utf8::encode_utf8("control.sock"@);
    assert(a.len() != b.len());
    assert(c.push(a).last() == a);
    assert(c.push(b).last() == b);
}

/// What the resolver hands out can be bound: both paths fit `sun_path`, and the directory has
/// mode 0700, so that group and others can neither read, write nor search it.
pub proof fn resolved_paths_are_bindable(cfg: PathsConfig, env: Runtime, mode: u32)
    requires
        resolves(cfg, env, DirOutcome::Mode(mode)),
    ensures
        chosen_daemon(cfg, env).len() < 108,
        chosen_control(cfg, env).len() < 108,
        mode & 0o777 == 0o700,
        mode & 0o070 == 0,
        mode & 0o007 == 0,
{
    assert(mode & 0o777 == 0o700 ==> mode & 0o070 == 0 && mode & 0o007 == 0) by (bit_vector);
}

/// A socket given in the environment takes its directory with it.
pub proof fn environment_socket_sets_directory(cfg: PathsConfig, env: Runtime)
    requires
        given_path(env.daemon_socket) is Some,
        real_parent(given_path(env.daemon_socket).unwrap()) is Some,
    ensures
        Some(chosen_dir(cfg, env)) == real_parent(chosen_daemon(cfg, env)),
{
}

/// The configuration directory wins over everything but a socket given in the environment.
pub proof fn configured_directory_wins(cfg: PathsConfig, env: Runtime)
    requires
        given_text(cfg.socket_dir) is Some,
        given_path(env.daemon_socket) is None,
        given_path(env.control_socket) is None,
    ensures
        Some(chosen_dir(cfg, env)) == given_text(cfg.socket_dir),
{
}

/// A setting that is there: not empty.
pub open spec fn names_a_path(o: Option<String>) -> bool {
    o matches Some(s) && s@.len() > 0
}

/// Where each socket comes from, in this order: the variable of the environment, the setting,
/// the socket directory. An empty value counts as little as a missing one.
pub proof fn sockets_in_order(cfg: PathsConfig, env: Runtime)
    ensures
        ({
            let from_env = env.daemon_socket matches Some(p) && p@.len() > 0;
            &&& from_env ==> chosen_daemon(cfg, env) == env.daemon_socket->0@
            &&& !from_env && names_a_path(cfg.daemon_socket) ==> chosen_daemon(cfg, env)
                == vstd::utf8::encode_utf8(cfg.daemon_socket->0@)
            &&& !from_env && !names_a_path(cfg.daemon_socket) ==> chosen_daemon(cfg, env)
                == unix_path::join(
                chosen_dir(cfg, env),
                vstd::utf8::encode_utf8("daemon.sock"@),
            )
        }),
        ({
            let from_env = env.control_socket matches Some(p) && p@.len() > 0;
            &&& from_env ==> chosen_control(cfg, env) == env.control_socket->0@
            &&& !from_env && names_a_path(cfg.control_socket) ==> chosen_control(cfg, env)
                == vstd::utf8::encode_utf8(cfg.control_socket->0@)
            &&& !from_env && !names_a_path(cfg.control_socket) ==> chosen_control(cfg, env)
                == unix_path::join(
                chosen_dir(cfg, env),
                vstd::utf8::encode_utf8("control.sock"@),
            )
        }),
{
}

/// Where the directory comes from, in this order: the parent of the daemon socket that the
/// environment names, or of the control socket where it names no daemon socket; the setting;
/// `telora` in the runtime directory, when that is writable; `telora` in `/run/user/<uid>`,
/// when that is writable; `/tmp/telora-<uid>`.
pub proof fn directories_in_order(cfg: PathsConfig, env: Runtime)
    ensures
        ({
            let daemon = env.daemon_socket matches Some(p) && p@.len() > 0;
            let control = env.control_socket matches Some(p) && p@.len() > 0;
            let above = if daemon {
                unix_path::parent(env.daemon_socket->0@)
            } else if control {
                unix_path::parent(env.control_socket->0@)
            } else {
                None
            };
            let placed = above matches Some(d) && d.len() > 0;
            let uid = strings::decimal(env.uid as nat);
            let telora = vstd::utf8::encode_utf8("telora"@);
            let xdg = names_a_path(env.xdg_runtime_dir) && env.xdg_writable;
            let free = !placed && !names_a_path(cfg.socket_dir);
            &&& placed ==> chosen_dir(cfg, env) == above->0
            &&& !placed && names_a_path(cfg.socket_dir) ==> chosen_dir(cfg, env)
                == vstd::utf8::encode_utf8(cfg.socket_dir->0@)
            &&& free && xdg ==> chosen_dir(cfg, env) == unix_path::join(
                vstd::utf8::encode_utf8(env.xdg_runtime_dir->0@),
                telora,
            )
            &&& free && !xdg && env.run_user_writable ==> chosen_dir(cfg, env) == unix_path::join(
                vstd::utf8::encode_utf8("/run/user/"@ + uid),
                telora,
            )
            &&& free && !xdg && !env.run_user_writable ==> chosen_dir(cfg, env)
                == vstd::utf8::encode_utf8("/tmp/telora-"@ + uid)
        }),
{
}

/// A directory is fit to hold sockets exactly when it is there with every permission of its
/// owner and none of anybody else.
pub proof fn ready_directories_are_private(outcome: DirOutcome)
    ensures
        dir_ready(outcome) <==> (outcome matches DirOutcome::Mode(m) && m & 0o700 == 0o700 && m
            & 0o077 == 0),
{
    if let DirOutcome::Mode(m) = outcome {
        assert(m & 0o777 == 0o700 <==> m & 0o700 == 0o700 && m & 0o077 == 0) by (bit_vector);
    }
}

/// What the operator reads when a socket path is too long or its directory cannot be used.
pub proof fn wording(path: UnixPath, dir: UnixPath, problem: DirProblem, reason: String, mode: u32)
    ensures
        ({
            let shown = unix_path::shown(path@);
            let rest = " socket path "@ + shown + ": socket path "@ + shown
                + " exceeds Linux sun_path limit ("@ + strings::decimal(path@.len())
                + " bytes, limit 108)"@;
            &&& error_text(PathsError::TooLong { endpoint: Endpoint::Daemon, path })
                == "validating daemon"@ + rest
            &&& error_text(PathsError::TooLong { endpoint: Endpoint::Control, path })
                == "validating control"@ + rest
        }),
        error_text(PathsError::Directory { dir, problem }) == "creating socket directory "@
            + unix_path::shown(dir@) + ": "@ + problem_text(problem),
        problem_text(DirProblem::CreateFailed { dir, reason }) == "DirBuilder::create("@
            + unix_path::shown(dir@) + "): "@ + reason@,
        problem_text(DirProblem::Failed { reason }) == reason@,
        problem_text(DirProblem::Insecure { dir, mode }) == "socket directory "@
            + unix_path::shown(dir@) + " has insecure mode "@ + strings::octal(mode as nat)
            + " (expected 0o700)"@,
{
    reveal_strlit("validating ");
    reveal_strlit("daemon");
    reveal_strlit("control");
    reveal_strlit("validating daemon");
    reveal_strlit("validating control");
    reveal_strlit(" bytes, limit ");
    reveal_strlit(")");
    reveal_strlit(" bytes, limit 108)");
    strings::numbers_are_written_out(10, 8);
    strings::numbers_are_written_out(1, 0);
    strings::numbers_are_written_out(0, 1);
    assert(strings::decimal(108) =~= seq!['1', '0', '8']);
    let shown = unix_path::shown(path@);
    let rest = " socket path "@ + shown + ": socket path "@ + shown
        + " exceeds Linux sun_path limit ("@ + strings::decimal(path@.len())
        + " bytes, limit 108)"@;
    assert(" bytes, limit "@ + strings::decimal(108) + ")"@ =~= " bytes, limit 108)"@);
    assert("validating "@ + "daemon"@ =~= "validating daemon"@);
    assert("validating "@ + "control"@ =~= "validating control"@);
    assert(error_text(PathsError::TooLong { endpoint: Endpoint::Daemon, path })
        =~= "validating daemon"@ + rest);
    assert(error_text(PathsError::TooLong { endpoint: Endpoint::Control, path })
        =~= "validating control"@ + rest);
}

} // verus!
