//! Where the Voxora model cache lives.
//!
//! The cache layout keeps the `voxora/models/huggingface` suffix. Override paths are checked
//! before they are handed to a downloader, so that every program has the same traversal and
//! XDG-boundary policy. The functions here name what has to be looked up in the file system
//! ([`probe_prefixes`], [`probe_ancestors`]) and decide on what was found.

use crate::strings;
use crate::unix_path;
use crate::unix_path::UnixPath;
use vstd::prelude::*;
use vstd::string::*;

verus! {

/// What was found at one prefix of a path.
#[derive(Clone, Copy, Debug, PartialEq, Eq, Structural)]
pub enum PrefixState {
    /// A symbolic link; `resolves` tells whether it leads anywhere.
    Symlink { resolves: bool },
    /// Something else.
    Present,
    /// Nothing.
    Missing,
    /// It could not be inspected.
    Unreadable,
}

/// What canonicalising a path gave.
#[derive(Debug)]
pub enum Canonical {
    /// Its canonical form.
    Found(UnixPath),
    /// There is no such path.
    Missing,
    /// It could not be canonicalised for another reason.
    Failed,
}

/// A cache override, with what the file system says of it.
#[derive(Debug)]
pub struct Override {
    pub path: UnixPath,
    /// Whether something exists at the path.
    pub exists: bool,
    /// Whether a directory exists at the path.
    pub is_dir: bool,
    /// What was found at each of the paths that [`probe_prefixes`] names, in order.
    pub prefixes: Vec<PrefixState>,
    /// The canonical forms of the paths that [`probe_ancestors`] names, in order.
    pub ancestors: Vec<Canonical>,
}

/// The user's XDG cache directory, with what the file system says of it.
#[derive(Debug)]
pub struct CacheRoot {
    /// The directory; `None` when there is no usable one.
    pub dir: Option<UnixPath>,
    /// The canonical forms of the paths that [`probe_ancestors`] names for it, in order.
    pub ancestors: Vec<Canonical>,
}

/// Why an override was not accepted.
#[derive(Clone, Copy, Debug, PartialEq, Eq, Structural)]
pub enum Rejection {
    /// It is empty or holds white space only.
    Blank,
    /// It starts or ends with white space.
    Padded,
    /// It has a `..` component.
    ParentTraversal,
    /// It exists and is no directory.
    NotADirectory,
    /// A prefix is a symbolic link that leads nowhere, or cannot be inspected.
    DanglingSymlink,
    /// There is no XDG cache directory to compare with.
    NoCacheDir,
    /// The XDG cache directory cannot be canonicalised.
    CacheDirUnresolved,
    /// The override cannot be canonicalised.
    Unresolved,
    /// It does not live under the XDG cache directory.
    OutsideCacheDir,
}

/// There is no usable XDG cache directory.
#[derive(Clone, Copy, Debug, PartialEq, Eq, Structural)]
pub struct NoCacheDirectory;

impl NoCacheDirectory {
    /// The text shown to the operator.
    pub fn message(&self) -> (r: String)
        ensures
            r@
                == "cannot determine a safe voxora cache directory: dirs::cache_dir() returned None; set $XDG_CACHE_HOME to validate absolute overrides or use a relative cache path"@,
    {
        "cannot determine a safe voxora cache directory: dirs::cache_dir() returned None; set $XDG_CACHE_HOME to validate absolute overrides or use a relative cache path".to_owned()
    }
}

/// The path built by joining components one after another.
pub open spec fn built(cs: Seq<Seq<u8>>) -> Seq<u8>
    decreases cs.len(),
{
    if cs.len() == 0 {
        seq![]
    } else {
        unix_path::join(built(cs.drop_last()), cs.last())
    }
}

/// The paths to inspect for symbolic links: one for each component of `p`, built from the
/// components up to it.
pub open spec fn prefixes(p: Seq<u8>) -> Seq<Seq<u8>> {
    Seq::new(
        unix_path::components(p).len(),
        |k: int| built(unix_path::components(p).take(k + 1)),
    )
}

/// The paths to canonicalise: `p`, its parent, and so on, as long as the last component is a
/// name.
pub open spec fn ancestors(p: Seq<u8>) -> Seq<Seq<u8>>
    decreases p.len(),
{
    match (unix_path::file_name(p), unix_path::parent(p)) {
        (Some(_), Some(q)) => if q.len() < p.len() {
            seq![p] + ancestors(q)
        } else {
            seq![p]
        },
        _ => seq![p],
    }
}

/// The prefix refuses the path: a link that leads nowhere, or one that cannot be inspected.
pub open spec fn refuses(s: PrefixState) -> bool {
    s == PrefixState::Symlink { resolves: false } || s == PrefixState::Unreadable
}

/// Some prefix refuses the path, and everything above it exists.
pub open spec fn dangling(states: Seq<PrefixState>) -> bool {
    exists|k: int|
        0 <= k < states.len() && refuses(#[trigger] states[k]) && forall|j: int|
            0 <= j < k ==> states[j] != PrefixState::Missing
}

/// The canonical form of the longest existing prefix of `p`, extended by the missing names.
/// `found` holds what canonicalising `p`, its parent, and so on gave.
pub open spec fn canonical(p: Seq<u8>, found: Seq<Canonical>) -> Option<Seq<u8>>
    decreases found.len(),
{
    if found.len() == 0 {
        None
    } else {
        match found[0] {
            Canonical::Found(c) => Some(c@),
            Canonical::Failed => None,
            Canonical::Missing => match (unix_path::file_name(p), unix_path::parent(p)) {
                (Some(n), Some(q)) => match canonical(q, found.skip(1)) {
                    Some(c) => Some(unix_path::join(c, n)),
                    None => None,
                },
                _ => None,
            },
        }
    }
}

/// A path that counts as not given: empty, or white space only.
pub open spec fn blank_path(p: Seq<u8>) -> bool {
    p.len() == 0 || strings::blank(unix_path::shown(p))
}

/// The canonical XDG cache directory.
pub open spec fn canonical_root(root: CacheRoot) -> Option<Seq<u8>> {
    match root.dir {
        Some(d) => canonical(d@, root.ancestors@),
        None => None,
    }
}

/// The rule that `o` breaks, the first one where it breaks several; `None` when it is
/// acceptable.
pub open spec fn broken_rule(o: Override, root: CacheRoot) -> Option<Rejection> {
    let text = unix_path::shown(o.path@);
    if blank_path(o.path@) {
        Some(Rejection::Blank)
    } else if strings::trim(text) != text {
        Some(Rejection::Padded)
    } else if unix_path::has_parent_dir(o.path@) {
        Some(Rejection::ParentTraversal)
    } else if o.exists && !o.is_dir {
        Some(Rejection::NotADirectory)
    } else if !unix_path::absolute(o.path@) {
        None
    } else if dangling(o.prefixes@) {
        Some(Rejection::DanglingSymlink)
    } else if root.dir is None {
        Some(Rejection::NoCacheDir)
    } else if canonical_root(root) is None {
        Some(Rejection::CacheDirUnresolved)
    } else if canonical(o.path@, o.ancestors@) is None {
        Some(Rejection::Unresolved)
    } else if !unix_path::starts_with(
        canonical(o.path@, o.ancestors@).unwrap(),
        canonical_root(root).unwrap(),
    ) {
        Some(Rejection::OutsideCacheDir)
    } else {
        None
    }
}

/// The path an acceptable override stands for: its canonical form when it is absolute and
/// exists, otherwise the path as given.
pub open spec fn accepted_path(o: Override) -> Seq<u8> {
    if unix_path::absolute(o.path@) && o.exists {
        canonical(o.path@, o.ancestors@).unwrap()
    } else {
        o.path@
    }
}

/// `voxora/models/huggingface` below the XDG cache directory.
pub open spec fn xdg_default(root: CacheRoot) -> Option<Seq<u8>> {
    match root.dir {
        Some(d) => Some(
            unix_path::join(
                unix_path::join(
                    unix_path::join(d@, vstd::utf8::encode_utf8("voxora"@)),
                    vstd::utf8::encode_utf8("models"@),
                ),
                vstd::utf8::encode_utf8("huggingface"@),
            ),
        ),
        None => None,
    }
}

/// The cache directory for a command-line override, an environment override and the XDG cache
/// directory. The command line decides alone when it is given.
pub open spec fn resolved_cache(
    args: Option<&Override>,
    env: Option<&Override>,
    root: CacheRoot,
) -> Option<Seq<u8>> {
    let chosen = if args is Some {
        args
    } else {
        env
    };
    if chosen is Some && broken_rule(*chosen.unwrap(), root) is None {
        Some(accepted_path(*chosen.unwrap()))
    } else {
        xdg_default(root)
    }
}

/// The paths to inspect before [`has_dangling_symlink_prefix`] can decide.
pub fn probe_prefixes(path: &UnixPath) -> (r: Vec<UnixPath>)
    ensures
        unix_path::path_views(r@) == prefixes(path@),
{
    let parts: Vec<UnixPath> = path.components();
    let empty: Vec<u8> = Vec::new();
    let mut current: UnixPath = UnixPath { bytes: empty };
    let mut out: Vec<UnixPath> = Vec::new();
    let mut k: usize = 0;
    let ghost c = unix_path::components(path@);
    assert(unix_path::path_views(parts@).len() == parts.len());
    assert(c.take(0) =~= seq![]);
    while k < parts.len()
        invariant
            k <= parts.len(),
            c == unix_path::components(path@),
            unix_path::path_views(parts@) == c,
            c.len() == parts.len(),
            current@ == built(c.take(k as int)),
            unix_path::path_views(out@) == prefixes(path@).take(k as int),
        decreases parts.len() - k,
    {
        assert(c[k as int] == parts@[k as int]@);
        current = current.join(&parts[k]);
        assert(c.take(k + 1).drop_last() =~= c.take(k as int));
        assert(c.take(k + 1).last() == c[k as int]);
        let ghost before = unix_path::path_views(out@);
        out.push(current.clone());
        assert(unix_path::path_views(out@) =~= before.push(prefixes(path@)[k as int]));
        assert(prefixes(path@).take(k + 1) =~= prefixes(path@).take(k as int).push(
            prefixes(path@)[k as int],
        ));
        k = k + 1;
    }
    assert(prefixes(path@).take(k as int) =~= prefixes(path@));
    out
}

/// The paths to canonicalise before [`canonicalize_existing_prefix`] can decide.
pub fn probe_ancestors(path: &UnixPath) -> (r: Vec<UnixPath>)
    ensures
        unix_path::path_views(r@) == ancestors(path@),
{
    let mut out: Vec<UnixPath> = Vec::new();
    let mut current: UnixPath = path.clone();
    assert(unix_path::path_views(out@) + ancestors(current@) =~= ancestors(path@));
    loop
        invariant_except_break
            unix_path::path_views(out@) + ancestors(current@) == ancestors(path@),
        ensures
            unix_path::path_views(out@) == ancestors(path@),
        decreases current@.len(),
    {
        let ghost before = unix_path::path_views(out@);
        out.push(current.clone());
        assert(unix_path::path_views(out@) =~= before.push(current@));
        proof {
            unix_path::parent_is_shorter(current@);
        }
        let name: Option<UnixPath> = current.file_name();
        let up: Option<UnixPath> = current.parent();
        match (name, up) {
            (Some(_), Some(q)) => {
                assert(ancestors(current@) =~= seq![current@] + ancestors(q@));
                assert(before.push(current@) + ancestors(q@) =~= before + ancestors(current@));
                current = q;
            },
            _ => {
                assert(ancestors(current@) =~= seq![current@]);
                assert(before.push(current@) =~= before + ancestors(current@));
                break;
            },
        }
    }
    out
}

/// Whether a prefix of a path is a symbolic link with an unresolved target, or cannot be
/// inspected. `states` holds what was found at the paths that [`probe_prefixes`] names; what
/// follows the first missing one does not count.
pub fn has_dangling_symlink_prefix(states: &Vec<PrefixState>) -> (r: bool)
    ensures
        r == dangling(states@),
{
    let mut k: usize = 0;
    while k < states.len()
        invariant
            k <= states.len(),
            forall|j: int|
                0 <= j < k ==> (#[trigger] states@[j]) != PrefixState::Missing && !refuses(
                    states@[j],
                ),
        decreases states.len() - k,
    {
        match states[k] {
            PrefixState::Symlink { resolves } => {
                if !resolves {
                    assert(refuses(states@[k as int]));
                    return true;
                }
            },
            PrefixState::Present => {},
            PrefixState::Missing => {
                assert forall|i: int|
                    0 <= i < states@.len() && refuses(#[trigger] states@[i]) implies exists|j: int|
                    0 <= j < i && states@[j] == PrefixState::Missing by {
                    assert(states@[k as int] == PrefixState::Missing);
                    assert(i > k);
                }
                return false;
            },
            PrefixState::Unreadable => {
                assert(refuses(states@[k as int]));
                return true;
            },
        }
        k = k + 1;
    }
    false
}

/// Canonicalises the longest existing prefix of `path` and appends the missing suffix.
///
/// `found` holds the canonical forms of the paths that [`probe_ancestors`] names. A symbolic
/// link in an existing parent is seen even when the last directory has not been created yet.
pub fn canonicalize_existing_prefix(path: &UnixPath, found: &Vec<Canonical>) -> (r: Option<
    UnixPath,
>)
    ensures
        r matches Some(c) ==> canonical(path@, found@) == Some(c@),
        r is None ==> canonical(path@, found@) is None,
{
    let mut suffix: Vec<UnixPath> = Vec::new();
    let mut current: UnixPath = path.clone();
    let mut k: usize = 0;
    assert(found@.skip(0) =~= found@);
    while k < found.len()
        invariant
            k <= found.len(),
            unix_path::path_views(suffix@).len() == suffix.len(),
            canonical(path@, found@) == extended(
                canonical(current@, found@.skip(k as int)),
                unix_path::path_views(suffix@),
            ),
        decreases found.len() - k,
    {
        let ghost rest = found@.skip(k as int);
        assert(rest[0] == found@[k as int]);
        match &found[k] {
            Canonical::Found(c) => {
                let mut out: UnixPath = c.clone();
                let mut j: usize = suffix.len();
                assert(unix_path::path_views(suffix@).take(j as int) =~= unix_path::path_views(
                    suffix@,
                ));
                while j > 0
                    invariant
                        j <= suffix.len(),
                        unix_path::path_views(suffix@).len() == suffix.len(),
                        canonical(path@, found@) == extended(
                            Some(out@),
                            unix_path::path_views(suffix@).take(j as int),
                        ),
                    decreases j,
                {
                    let ghost names = unix_path::path_views(suffix@).take(j as int);
                    assert(names.last() == suffix@[j - 1]@);
                    assert(names.drop_last() =~= unix_path::path_views(suffix@).take(j - 1));
                    out = out.join(&suffix[j - 1]);
                    j = j - 1;
                }
                return Some(out);
            },
            Canonical::Failed => {
                proof {
                    extended_none(unix_path::path_views(suffix@));
                }
                return None;
            },
            Canonical::Missing => {
                proof {
                    extended_none(unix_path::path_views(suffix@));
                }
                let name: Option<UnixPath> = current.file_name();
                let up: Option<UnixPath> = current.parent();
                match (name, up) {
                    (Some(n), Some(q)) => {
                        let ghost before = unix_path::path_views(suffix@);
                        assert(rest.skip(1) =~= found@.skip(k + 1));
                        proof {
                            extended_none(before.push(n@));
                            let inner = canonical(q@, found@.skip(k + 1));
                            assert(before.push(n@).drop_last() =~= before);
                            assert(before.push(n@).last() == n@);
                            if inner is Some {
                                assert(extended(inner, before.push(n@)) == extended(
                                    Some(unix_path::join(inner.unwrap(), n@)),
                                    before,
                                ));
                            }
                        }
                        suffix.push(n);
                        assert(unix_path::path_views(suffix@) =~= before.push(n@));
                        current = q;
                        k = k + 1;
                    },
                    _ => {
                        return None;
                    },
                }
            },
        }
    }
    proof {
        extended_none(unix_path::path_views(suffix@));
    }
    None
}

/// `p` extended by `names`, the last one first.
spec fn extended(p: Option<Seq<u8>>, names: Seq<Seq<u8>>) -> Option<Seq<u8>>
    decreases names.len(),
{
    if names.len() == 0 {
        p
    } else {
        match p {
            Some(c) => extended(Some(unix_path::join(c, names.last())), names.drop_last()),
            None => None,
        }
    }
}

proof fn extended_none(names: Seq<Seq<u8>>)
    ensures
        extended(None, names) is None,
{
}

/// Whether a path is empty or holds white space only.
pub fn is_blank(path: &UnixPath) -> (r: bool)
    ensures
        r == blank_path(path@),
{
    if path.is_empty() {
        return true;
    }
    let text: String = path.to_text();
    let left: Vec<char> = strings::trim_chars(&strings::chars_of(text.as_str()));
    proof {
        strings::blank_iff_trim_empty(text@);
    }
    left.len() == 0
}

/// Validates a cache override and returns the path it stands for, or the first rule it breaks.
pub fn sanitize_with_source(candidate: &Override, root: &CacheRoot) -> (r: Result<
    UnixPath,
    Rejection,
>)
    ensures
        r matches Ok(p) ==> broken_rule(*candidate, *root) is None && p@ == accepted_path(
            *candidate,
        ),
        r matches Err(e) ==> broken_rule(*candidate, *root) == Some(e),
{
    if is_blank(&candidate.path) {
        return Err(Rejection::Blank);
    }
    let text: String = candidate.path.to_text();
    let trimmed: String = strings::trimmed(text.as_str());
    if !strings::same(text.as_str(), trimmed.as_str()) {
        return Err(Rejection::Padded);
    }
    if candidate.path.has_parent_dir() {
        return Err(Rejection::ParentTraversal);
    }
    if candidate.exists && !candidate.is_dir {
        return Err(Rejection::NotADirectory);
    }
    if !candidate.path.is_absolute() {
        return Ok(candidate.path.clone());
    }
    if has_dangling_symlink_prefix(&candidate.prefixes) {
        return Err(Rejection::DanglingSymlink);
    }
    match &root.dir {
        None => Err(Rejection::NoCacheDir),
        Some(dir) => match canonicalize_existing_prefix(dir, &root.ancestors) {
            None => Err(Rejection::CacheDirUnresolved),
            Some(canonical_root_dir) => match canonicalize_existing_prefix(
                &candidate.path,
                &candidate.ancestors,
            ) {
                None => Err(Rejection::Unresolved),
                Some(canonical_candidate) => {
                    if !canonical_candidate.starts_with(&canonical_root_dir) {
                        Err(Rejection::OutsideCacheDir)
                    } else if candidate.exists {
                        Ok(canonical_candidate)
                    } else {
                        Ok(candidate.path.clone())
                    }
                },
            },
        },
    }
}

/// Validates a cache override and returns its accepted path.
///
/// Empty values, any `..` component, white-space-padded values, absolute paths outside the
/// canonical XDG cache root, dangling or escaping symlink prefixes, and existing
/// non-directory targets are rejected. Relative paths without parent traversal are accepted as
/// they stand.
pub fn sanitize_voxora_cache_override(candidate: &Override, root: &CacheRoot) -> (r: Option<
    UnixPath,
>)
    ensures
        r is Some <==> broken_rule(*candidate, *root) is None,
        r matches Some(p) ==> p@ == accepted_path(*candidate),
{
    match sanitize_with_source(candidate, root) {
        Ok(p) => Some(p),
        Err(_) => None,
    }
}

fn xdg_default_cache_dir(root: &CacheRoot) -> (r: Result<UnixPath, NoCacheDirectory>)
    ensures
        r matches Ok(p) ==> xdg_default(*root) == Some(p@),
        r is Err ==> xdg_default(*root) is None,
{
    match &root.dir {
        Some(base) => Ok(
            base.join_text("voxora").join_text("models").join_text("huggingface"),
        ),
        None => Err(NoCacheDirectory),
    }
}

/// Resolves the Voxora model-cache root from command line, environment, or XDG defaults.
///
/// The command-line override has precedence over the environment override. A rejected
/// command-line override falls directly to the XDG default; it never selects the environment
/// value. A rejected environment override also falls to the XDG default. There is no result
/// exactly when the default is needed and no XDG cache directory is known.
pub fn resolve_voxora_cache(
    args_override: Option<&Override>,
    env_override: Option<&Override>,
    root: &CacheRoot,
) -> (r: Result<UnixPath, NoCacheDirectory>)
    ensures
        r matches Ok(p) ==> resolved_cache(args_override, env_override, *root) == Some(p@),
        r is Err ==> resolved_cache(args_override, env_override, *root) is None,
{
    if let Some(o) = args_override {
        if let Some(accepted) = sanitize_voxora_cache_override(o, root) {
            return Ok(accepted);
        }
        return xdg_default_cache_dir(root);
    }
    if let Some(o) = env_override {
        if let Some(accepted) = sanitize_voxora_cache_override(o, root) {
            return Ok(accepted);
        }
    }
    xdg_default_cache_dir(root)
}

/// The on-disk location of the model cache when no command line is involved: the environment
/// override when it is acceptable, otherwise the XDG default.
pub fn default_voxora_cache_dir(env_override: Option<&Override>, root: &CacheRoot) -> (r: Result<
    UnixPath,
    NoCacheDirectory,
>)
    ensures
        r matches Ok(p) ==> resolved_cache(None, env_override, *root) == Some(p@),
        r is Err ==> resolved_cache(None, env_override, *root) is None,
{
    resolve_voxora_cache(None, env_override, root)
}

/// A command-line override is decisive: the environment override has no influence.
pub proof fn command_line_decides(
    args: &Override,
    env1: Option<&Override>,
    env2: Option<&Override>,
    root: CacheRoot,
)
    ensures
        resolved_cache(Some(args), env1, root) == resolved_cache(Some(args), env2, root),
{
}

/// A rejected override, from the command line or from the environment, selects the XDG default.
pub proof fn rejected_override_selects_default(
    o: &Override,
    env: Option<&Override>,
    root: CacheRoot,
)
    requires
        broken_rule(*o, root) is Some,
    ensures
        resolved_cache(Some(o), env, root) == xdg_default(root),
        resolved_cache(None, Some(o), root) == xdg_default(root),
{
}

/// No accepted override has a `..` component, and the canonical form of an accepted absolute
/// override lies under the canonical XDG cache directory.
pub proof fn accepted_override_is_confined(o: Override, root: CacheRoot)
    requires
        broken_rule(o, root) is None,
    ensures
        !unix_path::has_parent_dir(o.path@),
        !blank_path(o.path@),
        unix_path::absolute(o.path@) ==> canonical_root(root) is Some && canonical(
            o.path@,
            o.ancestors@,
        ) is Some && unix_path::starts_with(
            canonical(o.path@, o.ancestors@).unwrap(),
            canonical_root(root).unwrap(),
        ),
{
}

/// The three directory names below the XDG cache directory.
pub open spec fn default_suffix() -> Seq<Seq<u8>> {
    seq![
        vstd::utf8::encode_utf8("voxora"@),
        vstd::utf8::encode_utf8("models"@),
        vstd::utf8::encode_utf8("huggingface"@),
    ]
}

/// The default lies under the XDG cache directory, and its components are those of that
/// directory followed by `voxora`, `models` and `huggingface`.
pub proof fn default_keeps_suffix(root: CacheRoot)
    requires
        root.dir is Some,
    ensures
        xdg_default(root) matches Some(p) && unix_path::components(p) == unix_path::components(
            root.dir.unwrap()@,
        ) + default_suffix() && unix_path::starts_with(p, root.dir.unwrap()@),
{
    let d = root.dir.unwrap()@;
    reveal_strlit("voxora");
    reveal_strlit("models");
    reveal_strlit("huggingface");
    unix_path::ascii_text_is_plain("voxora"@);
    unix_path::ascii_text_is_plain("models"@);
    unix_path::ascii_text_is_plain("huggingface"@);
    let a = vstd::utf8::encode_utf8("voxora"@);
    let b = vstd::utf8::encode_utf8("models"@);
    let c = vstd::utf8::encode_utf8("huggingface"@);
    unix_path::join_adds_component(d, a);
    unix_path::join_adds_component(unix_path::join(d, a), b);
    unix_path::join_adds_component(unix_path::join(unix_path::join(d, a), b), c);
    let p = xdg_default(root).unwrap();
    assert(unix_path::components(p) =~= unix_path::components(d) + default_suffix());
    assert(unix_path::components(d) =~= unix_path::components(p).take(
        unix_path::components(d).len() as int,
    ));
}

/// The canonical form is that of some ancestor, `k` levels up, followed by the last `k`
/// components of the path; everything below that ancestor is missing.
pub proof fn canonical_keeps_missing_suffix(p: Seq<u8>, found: Seq<Canonical>)
    requires
        canonical(p, found) is Some,
    ensures
        exists|k: int|
            0 <= k < found.len() && k <= unix_path::components(p).len() && (
            #[trigger] found[k] matches Canonical::Found(c) && unix_path::components(
                canonical(p, found).unwrap(),
            ) == unix_path::components(c@) + unix_path::components(p).skip(
                unix_path::components(p).len() - k,
            )) && forall|j: int| 0 <= j < k ==> #[trigger] found[j] is Missing,
    decreases found.len(),
{
    let cs = unix_path::components(p);
    match found[0] {
        Canonical::Found(c) => {
            assert(unix_path::components(c@) + cs.skip(cs.len() as int) =~= unix_path::components(
                c@,
            ));
        },
        Canonical::Missing => {
            let n = unix_path::file_name(p).unwrap();
            let q = unix_path::parent(p).unwrap();
            let rest = found.skip(1);
            canonical_keeps_missing_suffix(q, rest);
            unix_path::parent_drops_last_component(p);
            unix_path::components_are_plain(p);
            let qs = unix_path::components(q);
            let inner = canonical(q, rest).unwrap();
            let k = choose|k: int|
                0 <= k < rest.len() && k <= qs.len() && (
                #[trigger] rest[k] matches Canonical::Found(c) && unix_path::components(inner)
                    == unix_path::components(c@) + qs.skip(qs.len() - k)) && forall|j: int|
                    0 <= j < k ==> #[trigger] rest[j] is Missing;
            assert(found[k + 1] == rest[k]);
            let c = rest[k]->Found_0;
            assert(unix_path::plain(cs.last()));
            unix_path::join_adds_component(inner, n);
            assert((unix_path::components(c@) + qs.skip(qs.len() - k)).push(n)
                =~= unix_path::components(c@) + cs.skip(cs.len() - (k + 1)));
            assert forall|j: int| 0 <= j < k + 1 implies #[trigger] found[j] is Missing by {
                if j > 0 {
                    assert(found[j] == rest[j - 1]);
                }
            }
        },
        Canonical::Failed => {},
    }
}

/// Each path to inspect for symbolic links has exactly the components of `p` up to its own.
pub proof fn probed_prefix_has_first_components(p: Seq<u8>, k: int)
    requires
        0 <= k < unix_path::components(p).len(),
    ensures
        unix_path::components(prefixes(p)[k]) == unix_path::components(p).take(k + 1),
    decreases k,
{
    unix_path::components_are_plain(p);
    let cs = unix_path::components(p);
    let here = cs.take(k + 1);
    assert(here.drop_last() =~= cs.take(k));
    assert(here.last() == cs[k]);
    if k == 0 {
        let c = cs[0];
        assert(cs.take(0) =~= seq![]);
        assert(built(cs.take(0)) =~= seq![]);
        assert(built(here) =~= c);
        if unix_path::plain(c) {
            unix_path::join_adds_component(seq![], c);
            assert(unix_path::components(Seq::<u8>::empty()) =~= seq![]);
            assert(unix_path::components(c) =~= here);
        } else {
            unix_path::single_component(c);
            assert(unix_path::components(c) =~= here);
        }
    } else {
        probed_prefix_has_first_components(p, k - 1);
        assert(unix_path::plain(cs[k]));
        unix_path::join_adds_component(built(cs.take(k)), cs[k]);
        assert(cs.take(k).push(cs[k]) =~= here);
    }
}

/// A text that neither starts nor ends with white space is its own trimmed form, and no other
/// is.
proof fn unpadded(text: Seq<char>)
    ensures
        strings::trim(text) == text <==> text.len() == 0 || (!strings::white_space(text[0])
            && !strings::white_space(text.last())),
{
    let ends = strings::trim_takes_white_space_off(text);
    if text.len() > 0 {
        if !strings::white_space(text[0]) && !strings::white_space(text.last()) {
            let n = text.len() as int;
            if ends.1 < n {
                assert(strings::white_space(text[n - 1]));
            }
            if ends.0 > 0 {
                assert(strings::white_space(text[0]));
            }
            assert(text.subrange(0, n) =~= text);
        }
        if strings::trim(text) == text {
            assert(text.subrange(ends.0, ends.1).len() == ends.1 - ends.0);
            assert(ends.0 == 0 && ends.1 == text.len());
        }
    }
}

/// Which overrides are accepted. The path says something, is not padded with white space, has
/// no `..` component, and what exists there is a directory. A relative path needs no more. An
/// absolute one also has no link that leads nowhere among its existing prefixes, and its
/// canonical form has the components of the canonical cache directory first.
pub proof fn which_overrides_are_accepted(o: Override, root: CacheRoot)
    ensures
        ({
            let text = unix_path::shown(o.path@);
            let cs = unix_path::components(o.path@);
            let says_something = o.path@.len() > 0 && exists|i: int|
                0 <= i < text.len() && !strings::white_space(#[trigger] text[i]);
            let padded = strings::white_space(text[0]) || strings::white_space(text.last());
            let climbs = exists|i: int| 0 <= i < cs.len() && #[trigger] cs[i] == seq![46u8, 46u8];
            let confined = canonical(o.path@, o.ancestors@) is Some && root.dir is Some
                && canonical(root.dir->0@, root.ancestors@) is Some && unix_path::components(
                canonical(root.dir->0@, root.ancestors@)->0,
            ).is_prefix_of(unix_path::components(canonical(o.path@, o.ancestors@)->0));
            broken_rule(o, root) is None <==> says_something && !padded && !climbs && (o.exists
                ==> o.is_dir) && (o.path@[0] == 47 ==> !dangling(o.prefixes@) && confined)
        }),
        broken_rule(o, root) is None && (o.path@[0] != 47 || !o.exists) ==> accepted_path(o)
            == o.path@,
        broken_rule(o, root) is None && o.path@[0] == 47 && o.exists ==> Some(accepted_path(o))
            == canonical(o.path@, o.ancestors@),
{
    let text = unix_path::shown(o.path@);
    unpadded(text);
    unix_path::paths_with_parents_and_names(o.path@);
}

/// Which rule a rejected override breaks. The checks come in this order: blank, padded, `..`,
/// no directory, dangling link, and then the cache directory and the canonical forms.
pub proof fn which_rule_is_broken(o: Override, root: CacheRoot)
    ensures
        ({
            let text = unix_path::shown(o.path@);
            let blank = o.path@.len() == 0 || forall|i: int|
                0 <= i < text.len() ==> strings::white_space(#[trigger] text[i]);
            let padded = text.len() > 0 && (strings::white_space(text[0]) || strings::white_space(
                text.last(),
            ));
            let cs = unix_path::components(o.path@);
            let climbs = exists|i: int| 0 <= i < cs.len() && #[trigger] cs[i] == seq![46u8, 46u8];
            let plain = !blank && !padded && !climbs && (o.exists ==> o.is_dir);
            let linked = plain && o.path@[0] == 47 && dangling(o.prefixes@);
            let rooted = plain && o.path@[0] == 47 && !dangling(o.prefixes@);
            &&& broken_rule(o, root) == Some(Rejection::Blank) <==> blank
            &&& broken_rule(o, root) == Some(Rejection::Padded) <==> !blank && padded
            &&& broken_rule(o, root) == Some(Rejection::ParentTraversal) <==> !blank && !padded
                && climbs
            &&& broken_rule(o, root) == Some(Rejection::NotADirectory) <==> !blank && !padded
                && !climbs && o.exists && !o.is_dir
            &&& broken_rule(o, root) == Some(Rejection::DanglingSymlink) <==> linked
            &&& broken_rule(o, root) == Some(Rejection::NoCacheDir) <==> rooted && root.dir is None
            &&& broken_rule(o, root) == Some(Rejection::CacheDirUnresolved) <==> rooted && root.dir
                is Some && canonical(root.dir->0@, root.ancestors@) is None
            &&& broken_rule(o, root) == Some(Rejection::Unresolved) <==> rooted && root.dir is Some
                && canonical(root.dir->0@, root.ancestors@) is Some && canonical(
                o.path@,
                o.ancestors@,
            ) is None
        }),
{
    unpadded(unix_path::shown(o.path@));
    unix_path::paths_with_parents_and_names(o.path@);
}

/// A prefix refuses the path when it is a link that leads nowhere or cannot be inspected, and
/// counts as long as nothing above it is missing.
pub proof fn which_prefixes_refuse(states: Seq<PrefixState>)
    ensures
        dangling(states) <==> exists|k: int|
            0 <= k < states.len() && (#[trigger] states[k] == PrefixState::Symlink {
                resolves: false,
            } || states[k] == PrefixState::Unreadable) && forall|j: int|
                0 <= j < k ==> states[j] != PrefixState::Missing,
        (forall|k: int|
            0 <= k < states.len() ==> #[trigger] states[k] == PrefixState::Present || states[k]
                == PrefixState::Symlink { resolves: true }) ==> !dangling(states),
{
    if dangling(states) {
        let k = choose|k: int|
            0 <= k < states.len() && refuses(#[trigger] states[k]) && forall|j: int|
                0 <= j < k ==> states[j] != PrefixState::Missing;
        assert(states[k] == PrefixState::Symlink { resolves: false } || states[k]
            == PrefixState::Unreadable);
    }
    if exists|k: int|
        0 <= k < states.len() && (#[trigger] states[k] == PrefixState::Symlink { resolves: false }
            || states[k] == PrefixState::Unreadable) && forall|j: int|
            0 <= j < k ==> states[j] != PrefixState::Missing {
        let k = choose|k: int|
            0 <= k < states.len() && (#[trigger] states[k] == PrefixState::Symlink {
                resolves: false,
            } || states[k] == PrefixState::Unreadable) && forall|j: int|
                0 <= j < k ==> states[j] != PrefixState::Missing;
        assert(refuses(states[k]));
    }
}

/// The paths to canonicalise are the path, its parent, the parent of that and so on, each by
/// leaving out the last name.
pub proof fn ancestors_climb(p: Seq<u8>)
    ensures
        ancestors(p).len() > 0,
        ancestors(p)[0] == p,
        forall|i: int|
            0 <= i < ancestors(p).len() - 1 ==> unix_path::parent(#[trigger] ancestors(p)[i])
                == Some(ancestors(p)[i + 1]) && unix_path::file_name(ancestors(p)[i]) is Some,
        unix_path::file_name(ancestors(p).last()) is None || unix_path::parent(
            ancestors(p).last(),
        ) is None,
    decreases p.len(),
{
    unix_path::parent_is_shorter(p);
    match (unix_path::file_name(p), unix_path::parent(p)) {
        (Some(_), Some(q)) => {
            ancestors_climb(q);
            let l = ancestors(p);
            let m = ancestors(q);
            assert(l == seq![p] + m);
            assert forall|i: int| 0 <= i < l.len() - 1 implies unix_path::parent(#[trigger] l[i])
                == Some(l[i + 1]) && unix_path::file_name(l[i]) is Some by {
                if i > 0 {
                    assert(l[i] == m[i - 1]);
                    assert(l[i + 1] == m[i]);
                } else {
                    assert(l[1] == m[0]);
                }
            }
            assert(l.last() == m.last());
        },
        _ => {},
    }
}

/// A path that exists has its own canonical form, one that cannot be canonicalised has none,
/// and a missing one has that of its parent with its name behind it.
pub proof fn canonical_forms(p: Seq<u8>, c: UnixPath, rest: Seq<Canonical>)
    ensures
        canonical(p, seq![Canonical::Found(c)] + rest) == Some(c@),
        canonical(p, seq![Canonical::Failed] + rest) is None,
        canonical(p, seq![]) is None,
        unix_path::file_name(p) is Some && unix_path::parent(p) is Some ==> (canonical(
            p,
            seq![Canonical::Missing] + rest,
        ) is Some <==> canonical(unix_path::parent(p)->0, rest) is Some),
        unix_path::file_name(p) is Some && unix_path::parent(p) is Some && canonical(
            unix_path::parent(p)->0,
            rest,
        ) is Some ==> canonical(p, seq![Canonical::Missing] + rest) == Some(
            unix_path::join(
                canonical(unix_path::parent(p)->0, rest)->0,
                unix_path::file_name(p)->0,
            ),
        ),
{
    assert((seq![Canonical::Missing] + rest).skip(1) =~= rest);
}

/// Where the cache is: what an accepted override of the command line stands for; without a
/// command line, what an accepted override of the environment stands for; without either, or
/// where the one that counts is rejected, the default.
pub proof fn caches_in_order(a: &Override, e: &Override, env: Option<&Override>, root: CacheRoot)
    ensures
        broken_rule(*a, root) is None ==> resolved_cache(Some(a), env, root) == Some(
            accepted_path(*a),
        ),
        broken_rule(*e, root) is None ==> resolved_cache(None, Some(e), root) == Some(
            accepted_path(*e),
        ),
        broken_rule(*a, root) is Some ==> resolved_cache(Some(a), env, root) == xdg_default(root),
        broken_rule(*e, root) is Some ==> resolved_cache(None, Some(e), root) == xdg_default(root),
        resolved_cache(None, None, root) == xdg_default(root),
        xdg_default(root) is None <==> root.dir is None,
{
}

} // verus!
