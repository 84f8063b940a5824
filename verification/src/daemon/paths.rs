//! The daemon's own path resolver, which takes its configuration and the runtime directory into
//! account but no socket variables.

use crate::paths;
use crate::paths::{DirOutcome, PathsError, Runtime};
use crate::unix_path;
use crate::unix_path::UnixPath;
use vstd::prelude::*;
use vstd::string::*;

verus! {

/// Path overrides from the `[paths]` section of `telora.toml`.
#[derive(Debug)]
pub struct PathsConfig {
    pub runtime_dir: Option<String>,
    pub socket_dir: Option<String>,
    pub daemon_socket: Option<String>,
    pub control_socket: Option<String>,
}

/// The concrete socket paths.
#[derive(Debug)]
pub struct ResolvedPaths {
    pub socket_dir: UnixPath,
    pub daemon_sock: UnixPath,
    pub control_sock: UnixPath,
}

impl Default for PathsConfig {
    fn default() -> (r: Self)
        ensures
            r == (PathsConfig {
                runtime_dir: None,
                socket_dir: None,
                daemon_socket: None,
                control_socket: None,
            }),
    {
        PathsConfig { runtime_dir: None, socket_dir: None, daemon_socket: None, control_socket: None }
    }
}

/// Path overrides with nothing set.
pub fn default_paths_config() -> (r: PathsConfig)
    ensures
        r == (PathsConfig {
            runtime_dir: None,
            socket_dir: None,
            daemon_socket: None,
            control_socket: None,
        }),
{
    PathsConfig::default()
}

/// The directory that the sockets live in.
pub open spec fn chosen_dir(cfg: PathsConfig, env: Runtime) -> Seq<u8> {
    match paths::given_text(cfg.socket_dir) {
        Some(d) => d,
        None => paths::fallback_dir(env),
    }
}

/// A socket: as configured, or in the directory.
pub open spec fn chosen_socket(configured: Option<String>, dir: Seq<u8>, name: Seq<char>) -> Seq<u8> {
    match paths::given_text(configured) {
        Some(p) => p,
        None => paths::under(dir, name),
    }
}

/// The directory that the sockets live in.
pub fn pick_socket_dir(cfg: &PathsConfig, env: &Runtime) -> (r: UnixPath)
    ensures
        r@ == chosen_dir(*cfg, *env),
{
    match paths::given_text_of(&cfg.socket_dir) {
        Some(d) => d,
        None => paths::pick_fallback_dir(env),
    }
}

/// Resolves the socket paths. `outcome` tells what came of creating the directory that
/// [`pick_socket_dir`] picks.
pub fn resolve(cfg: &PathsConfig, env: &Runtime, outcome: &DirOutcome) -> (r: Result<
    ResolvedPaths,
    PathsError,
>)
    ensures
        r is Ok <==> paths::dir_ready(*outcome),
        r matches Ok(p) ==> p.socket_dir@ == chosen_dir(*cfg, *env) && p.daemon_sock@
            == chosen_socket(cfg.daemon_socket, chosen_dir(*cfg, *env), "daemon.sock"@)
            && p.control_sock@ == chosen_socket(
            cfg.control_socket,
            chosen_dir(*cfg, *env),
            "control.sock"@,
        ),
        r matches Err(e) ==> (e matches PathsError::Directory { dir, problem } && dir@
            == chosen_dir(*cfg, *env) && paths::reports(problem, dir@, *outcome)),
{
    let socket_dir: UnixPath = pick_socket_dir(cfg, env);
    match paths::ensure_dir_0700(&socket_dir, outcome) {
        Err(problem) => Err(PathsError::Directory { dir: socket_dir, problem }),
        Ok(()) => {
            let daemon_sock: UnixPath = match paths::given_text_of(&cfg.daemon_socket) {
                Some(p) => p,
                None => socket_dir.join_text("daemon.sock"),
            };
            let control_sock: UnixPath = match paths::given_text_of(&cfg.control_socket) {
                Some(p) => p,
                None => socket_dir.join_text("control.sock"),
            };
            Ok(ResolvedPaths { socket_dir, daemon_sock, control_sock })
        },
    }
}

/// What canonicalising an existing override gave.
#[derive(Debug)]
pub enum Existing {
    /// Nothing exists there.
    No,
    /// Its canonical form.
    Canonical(UnixPath),
    /// It could not be canonicalised.
    Failed,
}

/// The XDG cache directory, and what canonicalising it gave.
#[derive(Debug)]
pub struct CacheDir {
    pub path: UnixPath,
    pub existing: Existing,
}

/// There is neither an acceptable override nor an XDG cache directory.
#[derive(Clone, Copy, Debug, PartialEq, Eq, Structural)]
pub struct NoCacheDirectory;

impl NoCacheDirectory {
    /// The text shown to the operator.
    pub fn message(&self) -> (r: String)
        ensures
            r@
                == "cannot determine a safe voxora cache directory: dirs::cache_dir() returned None; set $VOXORA_CACHE_DIR or $XDG_CACHE_HOME"@,
    {
        "cannot determine a safe voxora cache directory: dirs::cache_dir() returned None; set $VOXORA_CACHE_DIR or $XDG_CACHE_HOME".to_owned()
    }
}

/// The path that an override stands for: its canonical form when it exists.
pub open spec fn stands_for(candidate: Seq<u8>, existing: Existing) -> Option<Seq<u8>> {
    match existing {
        Existing::No => Some(candidate),
        Existing::Canonical(c) => Some(c@),
        Existing::Failed => None,
    }
}

/// The accepted path of a cache override. One with a `..` component is not accepted. A relative
/// one is: where it leads is up to the operator. An absolute one has to lead below the XDG cache
/// directory. When it exists, the canonical forms of both are compared, else the paths as given.
pub open spec fn accepted(candidate: Seq<u8>, existing: Existing, xdg: Option<CacheDir>) -> Option<
    Seq<u8>,
> {
    if unix_path::has_parent_dir(candidate) {
        None
    } else if !unix_path::absolute(candidate) {
        match stands_for(candidate, existing) {
            Some(p) => Some(p),
            None => Some(candidate),
        }
    } else {
        match (existing, xdg) {
            (Existing::No, Some(root)) => if unix_path::starts_with(candidate, root.path@) {
                Some(candidate)
            } else {
                None
            },
            (Existing::Canonical(c), Some(root)) => match stands_for(root.path@, root.existing) {
                Some(q) => if unix_path::starts_with(c@, q) {
                    Some(c@)
                } else {
                    None
                },
                None => None,
            },
            _ => None,
        }
    }
}

/// The accepted path of a cache override.
pub fn sanitize_voxora_cache_override(
    candidate: &UnixPath,
    existing: &Existing,
    xdg: &Option<CacheDir>,
) -> (r: Option<UnixPath>)
    ensures
        r matches Some(p) ==> accepted(candidate@, *existing, *xdg) == Some(p@),
        r is None ==> accepted(candidate@, *existing, *xdg) is None,
{
    if candidate.has_parent_dir() {
        return None;
    }
    if !candidate.is_absolute() {
        return match existing {
            Existing::Canonical(c) => Some(c.clone()),
            _ => Some(candidate.clone()),
        };
    }
    match xdg {
        None => None,
        Some(root) => match existing {
            Existing::Failed => None,
            Existing::No => if candidate.starts_with(&root.path) {
                Some(candidate.clone())
            } else {
                None
            },
            Existing::Canonical(c) => {
                let inside: bool = match &root.existing {
                    Existing::No => c.starts_with(&root.path),
                    Existing::Canonical(q) => c.starts_with(q),
                    Existing::Failed => false,
                };
                if inside {
                    Some(c.clone())
                } else {
                    None
                }
            },
        },
    }
}

/// A relative override without a `..` component is accepted, whatever exists there and whether
/// or not the cache directory is known.
pub proof fn relative_overrides_are_accepted(
    candidate: Seq<u8>,
    existing: Existing,
    xdg: Option<CacheDir>,
)
    requires
        !unix_path::absolute(candidate),
        !unix_path::has_parent_dir(candidate),
    ensures
        accepted(candidate, existing, xdg) is Some,
{
}

/// An absolute override that is accepted leads below the cache directory: the canonical form of
/// one that exists is below the canonical form of that directory, where that exists too.
pub proof fn absolute_overrides_are_confined(
    candidate: Seq<u8>,
    existing: Existing,
    xdg: Option<CacheDir>,
)
    requires
        unix_path::absolute(candidate),
        accepted(candidate, existing, xdg) is Some,
    ensures
        xdg is Some,
        ({
            let p = accepted(candidate, existing, xdg).unwrap();
            let root = xdg.unwrap();
            match existing {
                Existing::No => p == candidate && unix_path::starts_with(p, root.path@),
                Existing::Canonical(c) => p == c@ && stands_for(root.path@, root.existing) is Some
                    && unix_path::starts_with(
                    p,
                    stands_for(root.path@, root.existing).unwrap(),
                ),
                Existing::Failed => false,
            }
        }),
{
}

/// `voxora/models/huggingface` below a directory.
pub open spec fn model_dir(base: Seq<u8>) -> Seq<u8> {
    paths::under(paths::under(paths::under(base, "voxora"@), "models"@), "huggingface"@)
}

/// The model cache: an acceptable override that is not empty, else the one below the XDG cache
/// directory.
pub fn default_voxora_cache_dir(
    env_override: &Option<String>,
    existing: &Existing,
    xdg: &Option<CacheDir>,
) -> (r: Result<UnixPath, NoCacheDirectory>)
    ensures
        ({
            let over = match paths::given_text(*env_override) {
                Some(c) => accepted(c, *existing, *xdg),
                None => None,
            };
            match over {
                Some(p) => r matches Ok(q) && q@ == p,
                None => match *xdg {
                    Some(base) => r matches Ok(q) && q@ == model_dir(base.path@),
                    None => r is Err,
                },
            }
        }),
{
    if let Some(candidate) = paths::given_text_of(env_override) {
        if let Some(p) = sanitize_voxora_cache_override(&candidate, existing, xdg) {
            return Ok(p);
        }
    }
    match xdg {
        Some(base) => Ok(base.path.join_text("voxora").join_text("models").join_text("huggingface")),
        None => Err(NoCacheDirectory),
    }
}

/// The daemon's sockets: as configured, else `daemon.sock` and `control.sock` in the configured
/// directory, else in `telora` in the runtime directory, in `/run/user/<uid>` or as
/// `/tmp/telora-<uid>`, whichever is the first that can be used. An empty setting counts as
/// little as a missing one.
pub proof fn sockets_in_order(
    cfg: PathsConfig,
    env: Runtime,
    configured: Option<String>,
    name: Seq<char>,
)
    ensures
        ({
            let dir = chosen_dir(cfg, env);
            let uid = crate::strings::decimal(env.uid as nat);
            let telora = vstd::utf8::encode_utf8("telora"@);
            let set = cfg.socket_dir matches Some(s) && s@.len() > 0;
            let xdg = (env.xdg_runtime_dir matches Some(s) && s@.len() > 0) && env.xdg_writable;
            let given = configured matches Some(s) && s@.len() > 0;
            &&& set ==> dir == vstd::utf8::encode_utf8(cfg.socket_dir->0@)
            &&& !set && xdg ==> dir == unix_path::join(
                vstd::utf8::encode_utf8(env.xdg_runtime_dir->0@),
                telora,
            )
            &&& !set && !xdg && env.run_user_writable ==> dir == unix_path::join(
                vstd::utf8::encode_utf8("/run/user/"@ + uid),
                telora,
            )
            &&& !set && !xdg && !env.run_user_writable ==> dir == vstd::utf8::encode_utf8(
                "/tmp/telora-"@ + uid,
            )
            &&& given ==> chosen_socket(configured, dir, name) == vstd::utf8::encode_utf8(
                configured->0@,
            )
            &&& !given ==> chosen_socket(configured, dir, name) == unix_path::join(
                dir,
                vstd::utf8::encode_utf8(name),
            )
        }),
{
}

/// Which overrides are accepted, and what they stand for. None with a `..` component. A relative
/// one stands for its canonical form, or for itself. An absolute one that does not exist stands
/// for itself below the cache directory as given; one that exists stands for its canonical form
/// below the canonical form of the cache directory, or below that directory as given where it
/// does not exist.
pub proof fn which_overrides_are_accepted(
    candidate: Seq<u8>,
    c: UnixPath,
    root: UnixPath,
    canonical_root: UnixPath,
)
    ensures
        ({
            let cs = unix_path::components(candidate);
            let climbs = exists|i: int| 0 <= i < cs.len() && #[trigger] cs[i] == seq![46u8, 46u8];
            let rooted = candidate.len() > 0 && candidate[0] == 47;
            let plain = CacheDir { path: root, existing: Existing::No };
            let found = CacheDir { path: root, existing: Existing::Canonical(canonical_root) };
            let lost = CacheDir { path: root, existing: Existing::Failed };
            let below = |p: Seq<u8>, q: Seq<u8>|
                unix_path::components(q).is_prefix_of(unix_path::components(p));
            &&& climbs ==> forall|e: Existing, x: Option<CacheDir>| #[trigger]
                accepted(candidate, e, x) is None
            &&& !climbs && !rooted ==> forall|x: Option<CacheDir>| #[trigger]
                accepted(candidate, Existing::Canonical(c), x) == Some(c@)
            &&& !climbs && !rooted ==> forall|x: Option<CacheDir>| #[trigger]
                accepted(candidate, Existing::No, x) == Some(candidate)
            &&& !climbs && !rooted ==> forall|x: Option<CacheDir>| #[trigger]
                accepted(candidate, Existing::Failed, x) == Some(candidate)
            &&& rooted ==> forall|e: Existing| #[trigger] accepted(candidate, e, None) is None
            &&& rooted ==> forall|x: Option<CacheDir>| #[trigger]
                accepted(candidate, Existing::Failed, x) is None
            &&& rooted && !climbs ==> accepted(candidate, Existing::No, Some(found)) == (if below(
                candidate,
                root@,
            ) {
                Some(candidate)
            } else {
                None
            })
            &&& rooted && !climbs ==> accepted(candidate, Existing::Canonical(c), Some(found)) == (
            if below(c@, canonical_root@) {
                Some(c@)
            } else {
                None
            })
            &&& rooted && !climbs ==> accepted(candidate, Existing::Canonical(c), Some(plain)) == (
            if below(c@, root@) {
                Some(c@)
            } else {
                None
            })
            &&& rooted ==> accepted(candidate, Existing::Canonical(c), Some(lost)) is None
        }),
{
    unix_path::paths_with_parents_and_names(candidate);
}

/// The model cache has the components of its base, then `voxora`, `models` and `huggingface`.
pub proof fn model_dir_keeps_suffix(base: Seq<u8>)
    ensures
        unix_path::components(model_dir(base)) == unix_path::components(base).push(
            vstd::utf8::encode_utf8("voxora"@),
        ).push(vstd::utf8::encode_utf8("models"@)).push(vstd::utf8::encode_utf8("huggingface"@)),
{
    reveal_strlit("voxora");
    reveal_strlit("models");
    reveal_strlit("huggingface");
    unix_path::ascii_text_is_plain("voxora"@);
    unix_path::ascii_text_is_plain("models"@);
    unix_path::ascii_text_is_plain("huggingface"@);
    let a = unix_path::join(base, vstd::utf8::encode_utf8("voxora"@));
    let b = unix_path::join(a, vstd::utf8::encode_utf8("models"@));
    unix_path::join_adds_component(base, vstd::utf8::encode_utf8("voxora"@));
    unix_path::join_adds_component(a, vstd::utf8::encode_utf8("models"@));
    unix_path::join_adds_component(b, vstd::utf8::encode_utf8("huggingface"@));
}

} // verus!
