//! Binding a Unix socket, step by step.
//!
//! A bind goes through phases. Each phase asks for one operation ([`action`]); what came of it
//! is an event, and [`step`] tells the phase that follows. The parent directory is created
//! private, pinned by a descriptor that follows no symbolic link, and checked for owner and
//! mode before anything in it is touched; only a socket of the own user is ever removed; the
//! bound socket is tightened to mode `0o600` through the pinned directory, so the process-wide
//! umask is never changed.

use crate::paths;
use crate::strings;
use crate::unix_path;
use crate::unix_path::UnixPath;
use vstd::prelude::*;
use vstd::string::*;

verus! {

/// What a bind is about.
#[derive(Debug)]
pub struct BindContext {
    /// The socket path.
    pub path: UnixPath,
    /// The program that binds, as it appears in messages.
    pub instance: String,
    /// The numeric id of the current user.
    pub uid: u32,
}

/// The kind of a failed `bind(2)`.
#[derive(Clone, Copy, Debug, PartialEq, Eq, Structural)]
pub enum BindErrorKind {
    AddrInUse,
    PermissionDenied,
    InvalidInput,
    Other,
}

/// What stands at the socket path.
#[derive(Clone, Copy, Debug, PartialEq, Eq, Structural)]
pub enum Entry {
    Missing,
    /// It could not be inspected.
    Unreadable,
    Symlink,
    /// A socket, with its owner.
    Socket { uid: u32 },
    Directory,
    RegularFile,
    Other,
}

/// Why a bind failed.
#[derive(Clone, Copy, Debug, PartialEq, Eq, Structural)]
pub enum Reason {
    /// The inherited descriptors could not be received.
    Activation,
    /// The socket path has no parent directory.
    NoParent,
    ParentIsSymlink,
    ParentCreate,
    ParentInspect,
    /// The parent directory kept a mode that gives something to group or others.
    ParentInsecure { mode: u32 },
    ParentOpen,
    ParentNotOwned,
    ParentNotPrivate,
    StaleStat,
    StaleSymlink,
    StaleDirectory,
    StaleRegularFile,
    StaleOther,
    StaleNotOwned,
    StaleRemove,
    Bind { kind: BindErrorKind },
    Chmod,
}

/// Where a bind stands.
#[derive(Clone, Copy, Debug, PartialEq, Eq, Structural)]
pub enum Phase {
    /// Look for a listener inherited from the service manager.
    Activate,
    /// Look whether the parent directory is a symbolic link.
    InspectParent,
    /// Create the parent directory with mode `0o700`.
    CreateParent,
    /// Open the parent directory without following links.
    OpenParent,
    /// Look what stands at the socket path.
    InspectSocket,
    /// Remove the stale socket.
    RemoveStale,
    /// Bind through the opened parent directory.
    Bind,
    /// Tighten the socket to mode `0o600` through the opened parent directory.
    Tighten,
    /// The listener is bound.
    Bound,
    /// An inherited listener is used.
    Inherited,
    Failed(Reason),
}

/// What came of an operation.
#[derive(Clone, Copy, Debug, PartialEq, Eq, Structural)]
pub enum Event {
    /// The inherited descriptors could not be received.
    ActivationFailed,
    /// One inherited descriptor was adopted.
    ListenerAdopted,
    /// No inherited descriptor was usable.
    NoListener,
    /// The parent path was inspected; one that could not be is no symbolic link.
    ParentInspected { symlink: bool },
    ParentCreateFailed,
    /// The created directory could not be inspected, or its mode could not be set.
    ParentInspectFailed,
    ParentCreated { mode: u32 },
    ParentOpenFailed,
    ParentOpened { uid: u32, mode: u32 },
    SocketInspected(Entry),
    /// The stale socket is gone.
    StaleRemoved,
    StaleRemoveFailed,
    BindSucceeded,
    BindFailed(BindErrorKind),
    TightenSucceeded,
    TightenFailed,
}

/// The operation that a phase asks for.
#[derive(Debug)]
pub enum BindAction {
    ReceiveListener,
    InspectParent { parent: UnixPath },
    /// Create the parent directory with this mode.
    CreateParent { parent: UnixPath, mode: u32 },
    OpenParent { parent: UnixPath },
    /// Find out what stands at the socket path.
    InspectSocket { path: UnixPath },
    /// Remove the socket at the socket path.
    RemoveSocket { path: UnixPath },
    /// Bind the entry `name` of the opened parent directory.
    Bind { name: UnixPath },
    /// Give the entry `name` of the opened parent directory this mode.
    Tighten { name: UnixPath, mode: u32 },
    /// Nothing is left to do.
    Finish,
}

/// What is to be done about an entry at the socket path.
#[derive(Clone, Copy, Debug, PartialEq, Eq, Structural)]
pub enum Stale {
    Nothing,
    Remove,
    Refuse(Reason),
}

/// The mode that a bound socket gets.
pub const SOCKET_MODE: u32 = 0o600;

/// Only a socket of the current user is removed; anything else that exists is refused.
pub open spec fn stale_decision(entry: Entry, uid: u32) -> Stale {
    match entry {
        Entry::Missing => Stale::Nothing,
        Entry::Unreadable => Stale::Refuse(Reason::StaleStat),
        Entry::Symlink => Stale::Refuse(Reason::StaleSymlink),
        Entry::Directory => Stale::Refuse(Reason::StaleDirectory),
        Entry::RegularFile => Stale::Refuse(Reason::StaleRegularFile),
        Entry::Other => Stale::Refuse(Reason::StaleOther),
        Entry::Socket { uid: owner } => if owner == uid {
            Stale::Remove
        } else {
            Stale::Refuse(Reason::StaleNotOwned)
        },
    }
}

/// The first phase that touches the file system.
pub open spec fn first_manual_phase(ctx: BindContext) -> Phase {
    if paths::real_parent(ctx.path@) is Some {
        Phase::InspectParent
    } else {
        Phase::Failed(Reason::NoParent)
    }
}

/// The phase that binds; a path without a file name cannot be bound.
pub open spec fn bind_phase(ctx: BindContext) -> Phase {
    if unix_path::file_name(ctx.path@) is Some {
        Phase::Bind
    } else {
        Phase::Failed(Reason::Bind { kind: BindErrorKind::InvalidInput })
    }
}

/// Where a bind starts. Only the daemon looks for an inherited listener.
pub open spec fn first_phase(ctx: BindContext, allow_activation: bool) -> Phase {
    if allow_activation && ctx.instance@ == "telora-daemon"@ {
        Phase::Activate
    } else {
        first_manual_phase(ctx)
    }
}

/// The phase that follows; an event that does not belong to the phase changes nothing.
pub open spec fn next_phase(phase: Phase, ctx: BindContext, event: Event) -> Phase {
    match (phase, event) {
        (Phase::Activate, Event::ActivationFailed) => Phase::Failed(Reason::Activation),
        (Phase::Activate, Event::ListenerAdopted) => Phase::Inherited,
        (Phase::Activate, Event::NoListener) => first_manual_phase(ctx),
        (Phase::InspectParent, Event::ParentInspected { symlink }) => if symlink {
            Phase::Failed(Reason::ParentIsSymlink)
        } else {
            Phase::CreateParent
        },
        (Phase::CreateParent, Event::ParentCreateFailed) => Phase::Failed(Reason::ParentCreate),
        (Phase::CreateParent, Event::ParentInspectFailed) => Phase::Failed(Reason::ParentInspect),
        (Phase::CreateParent, Event::ParentCreated { mode }) => if paths::dir_mode(mode) {
            Phase::OpenParent
        } else {
            Phase::Failed(Reason::ParentInsecure { mode: mode & 0o777 })
        },
        (Phase::OpenParent, Event::ParentOpenFailed) => Phase::Failed(Reason::ParentOpen),
        (Phase::OpenParent, Event::ParentOpened { uid, mode }) => if uid != ctx.uid {
            Phase::Failed(Reason::ParentNotOwned)
        } else if !paths::private_mode(mode) {
            Phase::Failed(Reason::ParentNotPrivate)
        } else {
            Phase::InspectSocket
        },
        (Phase::InspectSocket, Event::SocketInspected(entry)) => match stale_decision(
            entry,
            ctx.uid,
        ) {
            Stale::Nothing => bind_phase(ctx),
            Stale::Remove => Phase::RemoveStale,
            Stale::Refuse(reason) => Phase::Failed(reason),
        },
        (Phase::RemoveStale, Event::StaleRemoved) => bind_phase(ctx),
        (Phase::RemoveStale, Event::StaleRemoveFailed) => Phase::Failed(Reason::StaleRemove),
        (Phase::Bind, Event::BindSucceeded) => Phase::Tighten,
        (Phase::Bind, Event::BindFailed(kind)) => Phase::Failed(Reason::Bind { kind }),
        (Phase::Tighten, Event::TightenSucceeded) => Phase::Bound,
        (Phase::Tighten, Event::TightenFailed) => Phase::Failed(Reason::Chmod),
        _ => phase,
    }
}

/// What is to be done about the entry at the socket path.
pub fn remove_stale_socket(entry: Entry, current_uid: u32) -> (r: Stale)
    ensures
        r == stale_decision(entry, current_uid),
{
    match entry {
        Entry::Missing => Stale::Nothing,
        Entry::Unreadable => Stale::Refuse(Reason::StaleStat),
        Entry::Symlink => Stale::Refuse(Reason::StaleSymlink),
        Entry::Directory => Stale::Refuse(Reason::StaleDirectory),
        Entry::RegularFile => Stale::Refuse(Reason::StaleRegularFile),
        Entry::Other => Stale::Refuse(Reason::StaleOther),
        Entry::Socket { uid } => if uid == current_uid {
            Stale::Remove
        } else {
            Stale::Refuse(Reason::StaleNotOwned)
        },
    }
}

fn ensure_parent_dir(ctx: &BindContext) -> (r: Phase)
    ensures
        r == first_manual_phase(*ctx),
{
    match paths::real_parent_of(&ctx.path) {
        Some(_) => Phase::InspectParent,
        None => Phase::Failed(Reason::NoParent),
    }
}

fn bind_unix_listener_with_parent(ctx: &BindContext) -> (r: Phase)
    ensures
        r == bind_phase(*ctx),
{
    match ctx.path.file_name() {
        Some(_) => Phase::Bind,
        None => Phase::Failed(Reason::Bind { kind: BindErrorKind::InvalidInput }),
    }
}

/// Where a bind starts that may use a listener inherited from the service manager.
pub fn bind_unix_socket(ctx: &BindContext) -> (r: Phase)
    ensures
        r == first_phase(*ctx, true),
{
    if strings::same(ctx.instance.as_str(), "telora-daemon") {
        Phase::Activate
    } else {
        ensure_parent_dir(ctx)
    }
}

/// Where a bind starts that never looks for an inherited listener.
pub fn bind_unix_socket_manual(ctx: &BindContext) -> (r: Phase)
    ensures
        r == first_phase(*ctx, false),
{
    ensure_parent_dir(ctx)
}

/// The phase that follows `phase` on `event`.
pub fn step(phase: Phase, ctx: &BindContext, event: Event) -> (r: Phase)
    ensures
        r == next_phase(phase, *ctx, event),
{
    match (phase, event) {
        (Phase::Activate, Event::ActivationFailed) => Phase::Failed(Reason::Activation),
        (Phase::Activate, Event::ListenerAdopted) => Phase::Inherited,
        (Phase::Activate, Event::NoListener) => ensure_parent_dir(ctx),
        (Phase::InspectParent, Event::ParentInspected { symlink }) => if symlink {
            Phase::Failed(Reason::ParentIsSymlink)
        } else {
            Phase::CreateParent
        },
        (Phase::CreateParent, Event::ParentCreateFailed) => Phase::Failed(Reason::ParentCreate),
        (Phase::CreateParent, Event::ParentInspectFailed) => Phase::Failed(Reason::ParentInspect),
        (Phase::CreateParent, Event::ParentCreated { mode }) => if mode & 0o777
            == paths::DIR_MODE {
            Phase::OpenParent
        } else {
            Phase::Failed(Reason::ParentInsecure { mode: mode & 0o777 })
        },
        (Phase::OpenParent, Event::ParentOpenFailed) => Phase::Failed(Reason::ParentOpen),
        (Phase::OpenParent, Event::ParentOpened { uid, mode }) => if uid != ctx.uid {
            Phase::Failed(Reason::ParentNotOwned)
        } else if mode & 0o077 != 0 {
            Phase::Failed(Reason::ParentNotPrivate)
        } else {
            Phase::InspectSocket
        },
        (Phase::InspectSocket, Event::SocketInspected(entry)) => match remove_stale_socket(
            entry,
            ctx.uid,
        ) {
            Stale::Nothing => bind_unix_listener_with_parent(ctx),
            Stale::Remove => Phase::RemoveStale,
            Stale::Refuse(reason) => Phase::Failed(reason),
        },
        (Phase::RemoveStale, Event::StaleRemoved) => bind_unix_listener_with_parent(ctx),
        (Phase::RemoveStale, Event::StaleRemoveFailed) => Phase::Failed(Reason::StaleRemove),
        (Phase::Bind, Event::BindSucceeded) => Phase::Tighten,
        (Phase::Bind, Event::BindFailed(kind)) => Phase::Failed(Reason::Bind { kind }),
        (Phase::Tighten, Event::TightenSucceeded) => Phase::Bound,
        (Phase::Tighten, Event::TightenFailed) => Phase::Failed(Reason::Chmod),
        _ => phase,
    }
}

/// The phases that belong to the path of the context: those that need a parent directory have
/// one, and those that need a file name have one.
pub open spec fn reachable(phase: Phase, ctx: BindContext) -> bool {
    match phase {
        Phase::InspectParent | Phase::CreateParent | Phase::OpenParent => paths::real_parent(
            ctx.path@,
        ) is Some,
        Phase::Bind | Phase::Tighten => unix_path::file_name(ctx.path@) is Some,
        _ => true,
    }
}

/// `a` is the operation of the phase, on the parent directory or the file name of the path.
pub open spec fn is_action(a: BindAction, phase: Phase, ctx: BindContext) -> bool {
    match phase {
        Phase::Activate => a is ReceiveListener,
        Phase::InspectParent => a matches BindAction::InspectParent { parent } && Some(parent@)
            == paths::real_parent(ctx.path@),
        Phase::CreateParent => a matches BindAction::CreateParent { parent, mode } && Some(
            parent@,
        ) == paths::real_parent(ctx.path@) && mode == paths::DIR_MODE,
        Phase::OpenParent => a matches BindAction::OpenParent { parent } && Some(parent@)
            == paths::real_parent(ctx.path@),
        Phase::InspectSocket => a matches BindAction::InspectSocket { path } && path@ == ctx.path@,
        Phase::RemoveStale => a matches BindAction::RemoveSocket { path } && path@ == ctx.path@,
        Phase::Bind => a matches BindAction::Bind { name } && Some(name@) == unix_path::file_name(
            ctx.path@,
        ),
        Phase::Tighten => a matches BindAction::Tighten { name, mode } && Some(name@)
            == unix_path::file_name(ctx.path@) && mode == SOCKET_MODE,
        Phase::Bound | Phase::Inherited | Phase::Failed(_) => a is Finish,
    }
}

/// The operation that a phase asks for. A phase that does not belong to the path of the
/// context asks for nothing.
pub fn action(phase: Phase, ctx: &BindContext) -> (r: BindAction)
    ensures
        reachable(phase, *ctx) ==> is_action(r, phase, *ctx),
        !reachable(phase, *ctx) ==> r is Finish,
{
    match phase {
        Phase::Activate => BindAction::ReceiveListener,
        Phase::InspectParent | Phase::CreateParent | Phase::OpenParent => {
            match paths::real_parent_of(&ctx.path) {
                None => BindAction::Finish,
                Some(parent) => match phase {
                    Phase::InspectParent => BindAction::InspectParent { parent },
                    Phase::CreateParent => BindAction::CreateParent { parent, mode: paths::DIR_MODE },
                    _ => BindAction::OpenParent { parent },
                },
            }
        },
        Phase::InspectSocket => BindAction::InspectSocket { path: ctx.path.clone() },
        Phase::RemoveStale => BindAction::RemoveSocket { path: ctx.path.clone() },
        Phase::Bind | Phase::Tighten => match ctx.path.file_name() {
            None => BindAction::Finish,
            Some(name) => match phase {
                Phase::Bind => BindAction::Bind { name },
                _ => BindAction::Tighten { name, mode: SOCKET_MODE },
            },
        },
        Phase::Bound | Phase::Inherited | Phase::Failed(_) => BindAction::Finish,
    }
}

/// `/proc/self/fd/<fd>/<name>`.
pub open spec fn pinned(fd: u32, name: Seq<u8>) -> Seq<u8> {
    unix_path::join(
        unix_path::join(
            vstd::utf8::encode_utf8("/proc/self/fd"@),
            vstd::utf8::encode_utf8(strings::decimal(fd as nat)),
        ),
        name,
    )
}

/// The path of the entry `name` of an open directory: no component above the name can be
/// swapped once the directory is open.
pub fn pinned_path(fd: u32, name: &UnixPath) -> (r: UnixPath)
    ensures
        r@ == pinned(fd, name@),
{
    UnixPath::from_text("/proc/self/fd").join_text(strings::decimal_of(fd as u64).as_str()).join(
        name,
    )
}

/// The file name of a path as it appears in messages.
pub open spec fn basename(p: Seq<u8>) -> Seq<char> {
    match unix_path::file_name(p) {
        Some(n) => if vstd::utf8::valid_utf8(n) {
            vstd::utf8::decode_utf8(n)
        } else {
            "<unknown>"@
        },
        None => "<unknown>"@,
    }
}

/// The file name of a path as it appears in messages.
pub fn basename_of(path: &UnixPath) -> (r: String)
    ensures
        r@ == basename(path@),
{
    match path.file_name() {
        Some(n) => match strings::utf8_text(&n.bytes) {
            Some(s) => s,
            None => "<unknown>".to_owned(),
        },
        None => "<unknown>".to_owned(),
    }
}

/// The parent directory of a path as it appears in messages.
pub open spec fn parent_shown(p: Seq<u8>) -> Seq<char> {
    match paths::real_parent(p) {
        Some(q) => unix_path::shown(q),
        None => ""@,
    }
}

fn parent_shown_of(path: &UnixPath) -> (r: String)
    ensures
        r@ == parent_shown(path@),
{
    match paths::real_parent_of(path) {
        Some(q) => q.to_text(),
        None => "".to_owned(),
    }
}

/// What is said of a failed `bind(2)`; `detail` is the system's own text.
pub open spec fn bind_error_text(
    kind: BindErrorKind,
    path: Seq<u8>,
    instance: Seq<char>,
    detail: Seq<char>,
) -> Seq<char> {
    match kind {
        BindErrorKind::AddrInUse => "another "@ + instance + " instance already holds '"@
            + basename(path)
            + "' in the user-runtime telora directory; check whether a previous "@ + instance
            + " process is still running before retrying"@,
        BindErrorKind::PermissionDenied => instance
            + ": permission denied binding socket at '"@ + basename(path) + "' — check parent ownership, directory mode, and any MAC policy"@,
        BindErrorKind::InvalidInput => "socket path '"@ + basename(path)
            + "' is invalid or exceeds the Unix socket path limit"@,
        BindErrorKind::Other => "Failed to bind unix socket at "@ + basename(path) + ": "@ + detail,
    }
}

/// Translates a `bind(2)` failure into a message that tells the user what to do.
pub fn map_bind_error(kind: BindErrorKind, detail: &str, path: &UnixPath, instance_name: &str) -> (r:
    String)
    ensures
        r@ == bind_error_text(kind, path@, instance_name@, detail@),
{
    let name: String = basename_of(path);
    match kind {
        BindErrorKind::AddrInUse => {
            let mut out: String = "another ".to_owned();
            out.append(instance_name);
            out.append(" instance already holds '");
            out.append(name.as_str());
            out.append("' in the user-runtime telora directory; check whether a previous ");
            out.append(instance_name);
            out.append(" process is still running before retrying");
            out
        },
        BindErrorKind::PermissionDenied => {
            let mut out: String = instance_name.to_owned();
            out.append(": permission denied binding socket at '");
            out.append(name.as_str());
            out.append("' — check parent ownership, directory mode, and any MAC policy");
            out
        },
        BindErrorKind::InvalidInput => {
            let mut out: String = "socket path '".to_owned();
            out.append(name.as_str());
            out.append("' is invalid or exceeds the Unix socket path limit");
            out
        },
        BindErrorKind::Other => {
            let mut out: String = "Failed to bind unix socket at ".to_owned();
            out.append(name.as_str());
            out.append(": ");
            out.append(detail);
            out
        },
    }
}

/// What is said about an entry that is in the way and is no socket.
pub open spec fn in_the_way(kind: Seq<char>, ctx: BindContext) -> Seq<char> {
    "refusing to remove "@ + kind + " at '"@ + basename(ctx.path@)
        + "'; remove it manually before starting "@ + ctx.instance@
}

/// What is said of a failed bind; `detail` is the system's own text, where there is one.
pub open spec fn failure_text(reason: Reason, ctx: BindContext, detail: Seq<char>) -> Seq<char> {
    match reason {
        Reason::Activation => "reading systemd activation descriptors: "@ + detail,
        Reason::NoParent => "socket path "@ + basename(ctx.path@) + " has no parent directory"@,
        Reason::ParentIsSymlink => "socket parent directory "@ + parent_shown(ctx.path@)
            + " is a symlink; refusing to follow it"@,
        Reason::ParentCreate => "ensuring socket parent directory "@ + parent_shown(ctx.path@)
            + ": DirBuilder::create("@ + parent_shown(ctx.path@) + "): "@ + detail,
        Reason::ParentInspect => "ensuring socket parent directory "@ + parent_shown(ctx.path@)
            + ": "@ + detail,
        Reason::ParentInsecure { mode } => "ensuring socket parent directory "@ + parent_shown(
            ctx.path@,
        ) + ": socket directory "@ + parent_shown(ctx.path@) + " has insecure mode "@
            + strings::octal(mode as nat) + " (expected 0o700)"@,
        Reason::ParentOpen => "opening the socket parent without following symlinks: "@ + detail,
        Reason::ParentNotOwned =>
            "opening the socket parent without following symlinks: socket parent directory is not owned by the current user"@,
        Reason::ParentNotPrivate =>
            "opening the socket parent without following symlinks: socket parent directory is writable by group or other users"@,
        Reason::StaleStat => "stat'ing existing socket file "@ + basename(ctx.path@) + ": "@
            + detail,
        Reason::StaleSymlink => "refusing to bind: symlink at '"@ + basename(ctx.path@)
            + "'; remove it manually after verifying its owner"@,
        Reason::StaleDirectory => in_the_way("directory"@, ctx),
        Reason::StaleRegularFile => in_the_way("regular file"@, ctx),
        Reason::StaleOther => in_the_way("non-socket entry"@, ctx),
        Reason::StaleNotOwned => "stale socket '"@ + basename(ctx.path@)
            + "' in the user-runtime telora directory is not owned by the current user; another "@
            + ctx.instance@
            + " instance appears to be running (or its previous run did not clean up). Use `ls -la <full-path>` to find the owner and `sudo rm <full-path>` to remove it."@,
        Reason::StaleRemove => "removing stale socket "@ + basename(ctx.path@) + ": "@ + detail,
        Reason::Bind { kind } => bind_error_text(kind, ctx.path@, ctx.instance@, detail),
        Reason::Chmod => detail,
    }
}

fn in_the_way_of(kind: &str, ctx: &BindContext) -> (r: String)
    ensures
        r@ == in_the_way(kind@, *ctx),
{
    let mut out: String = "refusing to remove ".to_owned();
    out.append(kind);
    out.append(" at '");
    out.append(basename_of(&ctx.path).as_str());
    out.append("'; remove it manually before starting ");
    out.append(ctx.instance.as_str());
    out
}

/// The message for a failed bind.
pub fn failure_message(reason: Reason, ctx: &BindContext, detail: &str) -> (r: String)
    ensures
        r@ == failure_text(reason, *ctx, detail@),
{
    let name: String = basename_of(&ctx.path);
    let parent: String = parent_shown_of(&ctx.path);
    match reason {
        Reason::Activation => strings::cat("reading systemd activation descriptors: ", detail),
        Reason::NoParent => strings::cat(
            strings::cat("socket path ", name.as_str()).as_str(),
            " has no parent directory",
        ),
        Reason::ParentIsSymlink => strings::cat(
            strings::cat("socket parent directory ", parent.as_str()).as_str(),
            " is a symlink; refusing to follow it",
        ),
        Reason::ParentCreate => {
            let mut out: String = "ensuring socket parent directory ".to_owned();
            out.append(parent.as_str());
            out.append(": DirBuilder::create(");
            out.append(parent.as_str());
            out.append("): ");
            out.append(detail);
            out
        },
        Reason::ParentInspect => {
            let mut out: String = "ensuring socket parent directory ".to_owned();
            out.append(parent.as_str());
            out.append(": ");
            out.append(detail);
            out
        },
        Reason::ParentInsecure { mode } => {
            let mut out: String = "ensuring socket parent directory ".to_owned();
            out.append(parent.as_str());
            out.append(": socket directory ");
            out.append(parent.as_str());
            out.append(" has insecure mode ");
            out.append(strings::octal_of(mode as u64).as_str());
            out.append(" (expected 0o700)");
            out
        },
        Reason::ParentOpen => strings::cat(
            "opening the socket parent without following symlinks: ",
            detail,
        ),
        Reason::ParentNotOwned =>
            "opening the socket parent without following symlinks: socket parent directory is not owned by the current user".to_owned(),
        Reason::ParentNotPrivate =>
            "opening the socket parent without following symlinks: socket parent directory is writable by group or other users".to_owned(),
        Reason::StaleStat => {
            let mut out: String = "stat'ing existing socket file ".to_owned();
            out.append(name.as_str());
            out.append(": ");
            out.append(detail);
            out
        },
        Reason::StaleSymlink => strings::cat(
            strings::cat("refusing to bind: symlink at '", name.as_str()).as_str(),
            "'; remove it manually after verifying its owner",
        ),
        Reason::StaleDirectory => in_the_way_of("directory", ctx),
        Reason::StaleRegularFile => in_the_way_of("regular file", ctx),
        Reason::StaleOther => in_the_way_of("non-socket entry", ctx),
        Reason::StaleNotOwned => {
            let mut out: String = "stale socket '".to_owned();
            out.append(name.as_str());
            out.append(
                "' in the user-runtime telora directory is not owned by the current user; another ",
            );
            out.append(ctx.instance.as_str());
            out.append(
                " instance appears to be running (or its previous run did not clean up). Use `ls -la <full-path>` to find the owner and `sudo rm <full-path>` to remove it.",
            );
            out
        },
        Reason::StaleRemove => {
            let mut out: String = "removing stale socket ".to_owned();
            out.append(name.as_str());
            out.append(": ");
            out.append(detail);
            out
        },
        Reason::Bind { kind } => map_bind_error(kind, detail, &ctx.path, ctx.instance.as_str()),
        Reason::Chmod => detail.to_owned(),
    }
}

/// `phases` is a run of a bind, driven by `events`.
pub open spec fn is_run(
    ctx: BindContext,
    allow_activation: bool,
    phases: Seq<Phase>,
    events: Seq<Event>,
) -> bool {
    &&& phases.len() == events.len() + 1
    &&& phases[0] == first_phase(ctx, allow_activation)
    &&& forall|i: int|
        0 <= i < events.len() ==> phases[i + 1] == next_phase(
            phases[i],
            ctx,
            #[trigger] events[i],
        )
}

/// The parent directory was opened and found to be private and owned by the current user.
pub open spec fn parent_secured(ctx: BindContext, event: Event) -> bool {
    event matches Event::ParentOpened { uid, mode } && uid == ctx.uid && paths::private_mode(mode)
}

/// The phases that touch what stands in the parent directory.
pub open spec fn inside_parent(phase: Phase) -> bool {
    match phase {
        Phase::InspectSocket
        | Phase::RemoveStale
        | Phase::Bind
        | Phase::Tighten
        | Phase::Bound => true,
        _ => false,
    }
}

/// Nothing in the parent directory is inspected, removed, bound or changed before that
/// directory was opened and found to be private and owned by the current user.
pub proof fn parent_is_secured_first(
    ctx: BindContext,
    allow_activation: bool,
    phases: Seq<Phase>,
    events: Seq<Event>,
)
    requires
        is_run(ctx, allow_activation, phases, events),
        inside_parent(phases.last()),
    ensures
        exists|i: int|
            0 <= i < events.len() && phases[i] == Phase::OpenParent && parent_secured(
                ctx,
                #[trigger] events[i],
            ),
    decreases events.len(),
{
    let n = events.len() as int;
    if n > 0 {
        let e = events[n - 1];
        assert(phases[n] == next_phase(phases[n - 1], ctx, e));
        if inside_parent(phases[n - 1]) {
            let shorter = events.drop_last();
            assert(phases.drop_last().last() == phases[n - 1]);
            assert forall|i: int| 0 <= i < shorter.len() implies phases.drop_last()[i + 1]
                == next_phase(phases.drop_last()[i], ctx, #[trigger] shorter[i]) by {
                assert(shorter[i] == events[i]);
            }
            parent_is_secured_first(ctx, allow_activation, phases.drop_last(), shorter);
            let k = choose|k: int|
                0 <= k < shorter.len() && phases.drop_last()[k] == Phase::OpenParent
                    && parent_secured(ctx, #[trigger] shorter[k]);
            assert(events[k] == shorter[k]);
        } else {
            assert(phases[n - 1] == Phase::OpenParent && parent_secured(ctx, events[n - 1]));
        }
    }
}

/// A socket is removed only when it was seen to be a socket of the current user, at the path
/// that was inspected: the path that is to be bound.
pub proof fn only_own_sockets_are_removed(phase: Phase, ctx: BindContext, event: Event)
    requires
        phase != Phase::RemoveStale,
        next_phase(phase, ctx, event) == Phase::RemoveStale,
    ensures
        phase == Phase::InspectSocket,
        event == Event::SocketInspected(Entry::Socket { uid: ctx.uid }),
        forall|a: BindAction| #[trigger]
            is_action(a, phase, ctx) ==> (a matches BindAction::InspectSocket { path } && path@
                == ctx.path@),
        forall|a: BindAction| #[trigger]
            is_action(a, Phase::RemoveStale, ctx) ==> (a matches BindAction::RemoveSocket { path }
                && path@ == ctx.path@),
{
}

/// The event of a phase in which nothing is in the way: no listener is inherited, the parent is
/// a private directory of the current user, and at the path stands nothing or a socket of the
/// current user.
pub open spec fn unhindered(phase: Phase, ctx: BindContext, event: Event) -> bool {
    match phase {
        Phase::Activate => event is NoListener,
        Phase::InspectParent => event == (Event::ParentInspected { symlink: false }),
        Phase::CreateParent => event matches Event::ParentCreated { mode } && paths::dir_mode(mode),
        Phase::OpenParent => parent_secured(ctx, event),
        Phase::InspectSocket => event matches Event::SocketInspected(entry) && (entry
            == Entry::Missing || entry == (Entry::Socket { uid: ctx.uid })),
        Phase::RemoveStale => event is StaleRemoved,
        Phase::Bind => event is BindSucceeded,
        Phase::Tighten => event is TightenSucceeded,
        Phase::Bound | Phase::Inherited | Phase::Failed(_) => true,
    }
}

/// How many steps are left before a bind that nothing hinders is done.
pub open spec fn steps_left(phase: Phase) -> int {
    match phase {
        Phase::Activate => 8,
        Phase::InspectParent => 7,
        Phase::CreateParent => 6,
        Phase::OpenParent => 5,
        Phase::InspectSocket => 4,
        Phase::RemoveStale => 3,
        Phase::Bind => 2,
        Phase::Tighten => 1,
        _ => 0,
    }
}

/// The path can be bound: it has a parent directory and a file name.
pub open spec fn bindable(ctx: BindContext) -> bool {
    paths::real_parent(ctx.path@) is Some && unix_path::file_name(ctx.path@) is Some
}

/// A bind that nothing hinders ends with the socket bound: after as many steps as are left from
/// its first phase, and whatever follows.
pub proof fn unhindered_bind_succeeds(
    ctx: BindContext,
    allow_activation: bool,
    phases: Seq<Phase>,
    events: Seq<Event>,
)
    requires
        bindable(ctx),
        is_run(ctx, allow_activation, phases, events),
        forall|i: int| 0 <= i < events.len() ==> unhindered(phases[i], ctx, #[trigger] events[i]),
    ensures
        !(phases.last() is Failed) && phases.last() != Phase::Inherited,
        events.len() >= steps_left(first_phase(ctx, allow_activation)) ==> phases.last()
            == Phase::Bound,
        steps_left(phases.last()) + events.len() <= steps_left(first_phase(ctx, allow_activation))
            || phases.last() == Phase::Bound,
    decreases events.len(),
{
    let n = events.len() as int;
    if n > 0 {
        let head = phases.drop_last();
        let ev = events.drop_last();
        assert forall|i: int| 0 <= i < ev.len() implies head[i + 1] == next_phase(
            head[i],
            ctx,
            #[trigger] ev[i],
        ) && unhindered(head[i], ctx, ev[i]) by {
            assert(ev[i] == events[i]);
        }
        unhindered_bind_succeeds(ctx, allow_activation, head, ev);
        assert(head.last() == phases[n - 1]);
        assert(unhindered(phases[n - 1], ctx, events[n - 1]));
        assert(phases[n] == next_phase(phases[n - 1], ctx, events[n - 1]));
    }
}

/// The parent directory was created, or was there, with its mode.
pub open spec fn parent_has_its_mode(event: Event) -> bool {
    event matches Event::ParentCreated { mode } && mode & 0o777 == paths::DIR_MODE
}

/// The phases that come after the parent directory was created.
pub open spec fn past_parent(phase: Phase) -> bool {
    phase == Phase::OpenParent || inside_parent(phase)
}

/// Nothing is done in the parent directory before it was seen to have mode 0700.
pub proof fn parent_mode_is_checked_first(
    ctx: BindContext,
    allow_activation: bool,
    phases: Seq<Phase>,
    events: Seq<Event>,
)
    requires
        is_run(ctx, allow_activation, phases, events),
        past_parent(phases.last()),
    ensures
        exists|i: int|
            0 <= i < events.len() && phases[i] == Phase::CreateParent && parent_has_its_mode(
                #[trigger] events[i],
            ),
    decreases events.len(),
{
    let n = events.len() as int;
    if n > 0 {
        assert(phases[n] == next_phase(phases[n - 1], ctx, events[n - 1]));
        if past_parent(phases[n - 1]) {
            let head = phases.drop_last();
            let ev = events.drop_last();
            assert forall|i: int| 0 <= i < ev.len() implies head[i + 1] == next_phase(
                head[i],
                ctx,
                #[trigger] ev[i],
            ) by {
                assert(ev[i] == events[i]);
            }
            assert(head.last() == phases[n - 1]);
            parent_mode_is_checked_first(ctx, allow_activation, head, ev);
            let k = choose|k: int|
                0 <= k < ev.len() && head[k] == Phase::CreateParent && parent_has_its_mode(
                    #[trigger] ev[k],
                );
            assert(events[k] == ev[k]);
        } else {
            assert(phases[n - 1] == Phase::CreateParent && parent_has_its_mode(events[n - 1]));
        }
    }
}

/// The only modes that a bind sets are that of the parent directory and that of the socket.
pub proof fn only_these_modes_are_set(a: BindAction, phase: Phase, ctx: BindContext)
    requires
        is_action(a, phase, ctx),
    ensures
        a matches BindAction::CreateParent { parent, mode } ==> mode == 0o700 && Some(parent@)
            == paths::real_parent(ctx.path@),
        a matches BindAction::Tighten { name, mode } ==> mode == 0o600 && Some(name@)
            == unix_path::file_name(ctx.path@),
{
}

/// A path that holds a socket of the current user is taken over: when nothing else is in the
/// way, that socket is removed, the path is bound again, and the new socket is tightened, in a
/// parent directory that was seen to have mode 0700.
pub proof fn own_stale_socket_is_taken_over(
    ctx: BindContext,
    allow_activation: bool,
    phases: Seq<Phase>,
    events: Seq<Event>,
    k: int,
)
    requires
        bindable(ctx),
        is_run(ctx, allow_activation, phases, events),
        forall|i: int| 0 <= i < events.len() ==> unhindered(phases[i], ctx, #[trigger] events[i]),
        events.len() >= steps_left(first_phase(ctx, allow_activation)),
        0 <= k < events.len(),
        phases[k] == Phase::InspectSocket,
        events[k] == Event::SocketInspected(Entry::Socket { uid: ctx.uid }),
    ensures
        phases.last() == Phase::Bound,
        k + 3 < events.len(),
        phases[k + 1] == Phase::RemoveStale && events[k + 1] == Event::StaleRemoved,
        phases[k + 2] == Phase::Bind && events[k + 2] == Event::BindSucceeded,
        phases[k + 3] == Phase::Tighten && events[k + 3] == Event::TightenSucceeded,
        phases[k + 4] == Phase::Bound,
        exists|i: int|
            0 <= i < events.len() && phases[i] == Phase::CreateParent && parent_has_its_mode(
                #[trigger] events[i],
            ),
{
    unhindered_bind_succeeds(ctx, allow_activation, phases, events);
    parent_mode_is_checked_first(ctx, allow_activation, phases, events);
    assert(phases[k + 1] == next_phase(phases[k], ctx, events[k]));
    assert(phases[k + 1] == Phase::RemoveStale);
    assert(k + 1 < events.len());
    assert(unhindered(phases[k + 1], ctx, events[k + 1]));
    assert(phases[k + 1 + 1] == next_phase(phases[k + 1], ctx, events[k + 1]));
    assert(phases[k + 2] == Phase::Bind);
    assert(k + 2 < events.len());
    assert(unhindered(phases[k + 2], ctx, events[k + 2]));
    assert(phases[k + 2 + 1] == next_phase(phases[k + 2], ctx, events[k + 2]));
    assert(phases[k + 3] == Phase::Tighten);
    assert(k + 3 < events.len());
    assert(unhindered(phases[k + 3], ctx, events[k + 3]));
    assert(phases[k + 3 + 1] == next_phase(phases[k + 3], ctx, events[k + 3]));
}

/// A bind is reported as done only after the socket was tightened, and it is tightened only
/// after it was bound.
pub proof fn bound_sockets_are_tightened(
    ctx: BindContext,
    allow_activation: bool,
    phases: Seq<Phase>,
    events: Seq<Event>,
)
    requires
        is_run(ctx, allow_activation, phases, events),
        phases.last() == Phase::Bound,
    ensures
        exists|i: int, j: int|
            0 <= i < j < events.len() && #[trigger] events[i] == Event::BindSucceeded && phases[i]
                == Phase::Bind && #[trigger] events[j] == Event::TightenSucceeded && phases[j]
                == Phase::Tighten,
{
    let j = last_entry(ctx, allow_activation, phases, events, Phase::Bound);
    let before = phases.take(j + 1);
    let ev = events.take(j);
    assert forall|i: int| 0 <= i < ev.len() implies before[i + 1] == next_phase(
        before[i],
        ctx,
        #[trigger] ev[i],
    ) by {
        assert(ev[i] == events[i]);
    }
    assert(before.last() == phases[j]);
    let i = last_entry(ctx, allow_activation, before, ev, Phase::Tighten);
    assert(ev[i] == events[i]);
    assert(events[i] == Event::BindSucceeded);
    assert(events[j] == Event::TightenSucceeded);
}

/// The step on which a run last entered the phase that it ends in.
proof fn last_entry(
    ctx: BindContext,
    allow_activation: bool,
    phases: Seq<Phase>,
    events: Seq<Event>,
    target: Phase,
) -> (j: int)
    requires
        is_run(ctx, allow_activation, phases, events),
        phases.last() == target,
        target == Phase::Bound || target == Phase::Tighten,
    ensures
        0 <= j < events.len(),
        phases[j] != target,
        phases[j + 1] == target,
        next_phase(phases[j], ctx, events[j]) == target,
    decreases events.len(),
{
    let n = events.len() as int;
    assert(phases[n] == target);
    assert(n > 0);
    assert(phases[n] == next_phase(phases[n - 1], ctx, events[n - 1]));
    if phases[n - 1] == target {
        let shorter = events.drop_last();
        let head = phases.drop_last();
        assert forall|i: int| 0 <= i < shorter.len() implies head[i + 1] == next_phase(
            head[i],
            ctx,
            #[trigger] shorter[i],
        ) by {
            assert(shorter[i] == events[i]);
        }
        assert(head.last() == target);
        let j = last_entry(ctx, allow_activation, head, shorter, target);
        assert(shorter[j] == events[j]);
        j
    } else {
        n - 1
    }
}

/// Every phase of a run belongs to the path: it asks for the operation that is its own.
pub proof fn runs_stay_reachable(phase: Phase, ctx: BindContext, event: Event)
    requires
        reachable(phase, ctx),
    ensures
        reachable(next_phase(phase, ctx, event), ctx),
        forall|allow: bool| reachable(#[trigger] first_phase(ctx, allow), ctx),
{
}

/// A bind without activation never waits for an inherited listener.
pub proof fn manual_bind_ignores_activation(ctx: BindContext, event: Event, phase: Phase)
    ensures
        first_phase(ctx, false) != Phase::Activate,
        phase != Phase::Activate && phase != Phase::Inherited ==> next_phase(phase, ctx, event)
            != Phase::Activate && next_phase(phase, ctx, event) != Phase::Inherited,
{
}

/// A descriptor handed over by the service manager.
#[derive(Clone, Copy, Debug, PartialEq, Eq, Structural)]
pub struct Descriptor {
    pub fd: i32,
    /// Whether it is a Unix socket.
    pub is_unix: bool,
}

/// What is to be done with a descriptor.
#[derive(Clone, Copy, Debug, PartialEq, Eq, Structural)]
pub enum AdoptAction {
    /// Try to adopt it; a descriptor that is not adopted is closed by the attempt.
    Try(i32),
    /// Close it.
    Close(i32),
    /// All descriptors are dealt with.
    Done,
}

/// Going through the descriptors handed over by the service manager. Descriptors that are no
/// Unix sockets are closed first; the others are tried in order until one is adopted, and the
/// rest is closed.
#[derive(Debug)]
pub struct Adoption {
    /// The descriptors, those that are no Unix sockets first.
    pub queue: Vec<Descriptor>,
    /// How many of them are dealt with.
    pub next: usize,
    /// The adopted descriptor.
    pub adopted: Option<i32>,
}

/// The descriptors of one kind, in order.
pub open spec fn of_kind(ds: Seq<Descriptor>, is_unix: bool) -> Seq<Descriptor>
    decreases ds.len(),
{
    if ds.len() == 0 {
        seq![]
    } else {
        let rest = of_kind(ds.drop_last(), is_unix);
        if ds.last().is_unix == is_unix {
            rest.push(ds.last())
        } else {
            rest
        }
    }
}

/// What is to be done with `d` once `adopted` is settled.
pub open spec fn adopt_action(d: Descriptor, adopted: Option<i32>) -> AdoptAction {
    if d.is_unix && adopted is None {
        AdoptAction::Try(d.fd)
    } else {
        AdoptAction::Close(d.fd)
    }
}

/// The adopted descriptor after an action that ended as `success` says.
pub open spec fn adopted_after(action: AdoptAction, adopted: Option<i32>, success: bool) -> Option<
    i32,
> {
    match action {
        AdoptAction::Try(fd) => if success {
            Some(fd)
        } else {
            adopted
        },
        _ => adopted,
    }
}

impl Adoption {
    /// No more descriptors are dealt with than there are.
    pub open spec fn wf(self) -> bool {
        self.next <= self.queue.len()
    }

    /// What is to be done next.
    pub open spec fn pending(self) -> AdoptAction {
        if self.next >= self.queue.len() {
            AdoptAction::Done
        } else {
            adopt_action(self.queue@[self.next as int], self.adopted)
        }
    }

    /// Starts with the descriptors that were received.
    pub fn new(received: &Vec<Descriptor>) -> (r: Adoption)
        ensures
            r.wf(),
            r.queue@ == of_kind(received@, false) + of_kind(received@, true),
            r.next == 0,
            r.adopted is None,
    {
        let mut queue: Vec<Descriptor> = Vec::new();
        let mut i: usize = 0;
        while i < received.len()
            invariant
                i <= received.len(),
                queue@ == of_kind(received@.take(i as int), false),
            decreases received.len() - i,
        {
            assert(received@.take(i + 1).drop_last() =~= received@.take(i as int));
            if !received[i].is_unix {
                queue.push(received[i]);
            }
            i = i + 1;
        }
        assert(received@.take(i as int) =~= received@);
        let ghost closed = queue@;
        i = 0;
        assert(closed + of_kind(received@.take(0), true) =~= closed);
        while i < received.len()
            invariant
                i <= received.len(),
                queue@ == closed + of_kind(received@.take(i as int), true),
            decreases received.len() - i,
        {
            assert(received@.take(i + 1).drop_last() =~= received@.take(i as int));
            if received[i].is_unix {
                queue.push(received[i]);
                assert(queue@ =~= closed + of_kind(received@.take(i + 1), true));
            }
            i = i + 1;
        }
        assert(received@.take(i as int) =~= received@);
        Adoption { queue, next: 0, adopted: None }
    }

    /// What is to be done next.
    pub fn action(&self) -> (r: AdoptAction)
        requires
            self.wf(),
        ensures
            r == self.pending(),
    {
        if self.next >= self.queue.len() {
            AdoptAction::Done
        } else {
            let d: Descriptor = self.queue[self.next];
            match self.adopted {
                None => if d.is_unix {
                    AdoptAction::Try(d.fd)
                } else {
                    AdoptAction::Close(d.fd)
                },
                Some(_) => AdoptAction::Close(d.fd),
            }
        }
    }

    /// Records that the pending action was carried out. `success` counts for an attempt only.
    pub fn done(&mut self, success: bool)
        requires
            old(self).wf(),
        ensures
            final(self).wf(),
            final(self).queue@ == old(self).queue@,
            final(self).next == if old(self).pending() is Done {
                old(self).next as int
            } else {
                old(self).next + 1
            },
            final(self).adopted == adopted_after(old(self).pending(), old(self).adopted, success),
    {
        let pending: AdoptAction = self.action();
        match pending {
            AdoptAction::Done => {},
            AdoptAction::Close(_) => {
                self.next = self.next + 1;
            },
            AdoptAction::Try(fd) => {
                self.next = self.next + 1;
                if success {
                    self.adopted = Some(fd);
                }
            },
        }
    }
}

/// An inherited descriptor can be adopted when it is a stream socket that accepts connections.
pub fn adopt_stream_listener(is_stream: bool, accepting: bool) -> (r: bool)
    ensures
        r == (is_stream && accepting),
{
    is_stream && accepting
}

/// The actions of a whole run from the `next`-th descriptor on, where `outcome` tells how each
/// action ends.
pub open spec fn adopt_from(queue: Seq<Descriptor>, outcome: Seq<bool>, next: int, adopted: Option<
    i32,
>) -> Seq<AdoptAction>
    decreases queue.len() - next,
{
    if next >= queue.len() {
        seq![]
    } else {
        let now = adopt_action(queue[next], adopted);
        seq![now] + adopt_from(
            queue,
            outcome,
            next + 1,
            adopted_after(now, adopted, outcome[next]),
        )
    }
}

/// No descriptor leaks: over a whole run each one is tried or closed, once, in its turn; after
/// the first success nothing is tried.
pub proof fn no_descriptor_leaks(
    queue: Seq<Descriptor>,
    outcome: Seq<bool>,
    next: int,
    adopted: Option<i32>,
)
    requires
        0 <= next <= queue.len(),
        outcome.len() == queue.len(),
    ensures
        ({
            let run = adopt_from(queue, outcome, next, adopted);
            &&& run.len() == queue.len() - next
            &&& forall|i: int|
                0 <= i < run.len() ==> (#[trigger] run[i] == AdoptAction::Try(queue[next + i].fd)
                    || run[i] == AdoptAction::Close(queue[next + i].fd))
            &&& adopted is Some ==> forall|i: int| 0 <= i < run.len() ==> #[trigger] run[i] is Close
            &&& forall|i: int, j: int|
                0 <= i < j < run.len() && outcome[next + i] && #[trigger] run[i] is Try ==> #[trigger] run[j] is Close
        }),
    decreases queue.len() - next,
{
    if next < queue.len() {
        let then_adopted = adopted_after(
            adopt_action(queue[next], adopted),
            adopted,
            outcome[next],
        );
        no_descriptor_leaks(queue, outcome, next + 1, then_adopted);
        let rest = adopt_from(queue, outcome, next + 1, then_adopted);
        let run = adopt_from(queue, outcome, next, adopted);
        assert forall|i: int| 0 <= i < run.len() implies (#[trigger] run[i] == AdoptAction::Try(
            queue[next + i].fd,
        ) || run[i] == AdoptAction::Close(queue[next + i].fd)) by {
            if i > 0 {
                assert(run[i] == rest[i - 1]);
                assert(queue[(next + 1) + (i - 1)] == queue[next + i]);
            }
        }
        if adopted is Some {
            assert forall|i: int| 0 <= i < run.len() implies #[trigger] run[i] is Close by {
                if i > 0 {
                    assert(run[i] == rest[i - 1]);
                }
            }
        }
        assert forall|i: int, j: int|
            0 <= i < j < run.len() && outcome[next + i] && #[trigger] run[i] is Try
            implies #[trigger] run[j] is Close by {
            assert(run[j] == rest[j - 1]);
            if i > 0 {
                assert(run[i] == rest[i - 1]);
                assert(outcome[(next + 1) + (i - 1)] == outcome[next + i]);
            }
        }
    }
}

/// Sorting the descriptors by kind loses none of them.
pub proof fn every_descriptor_is_queued(ds: Seq<Descriptor>, i: int)
    requires
        0 <= i < ds.len(),
    ensures
        (of_kind(ds, false) + of_kind(ds, true)).contains(ds[i]),
        of_kind(ds, false).len() + of_kind(ds, true).len() == ds.len(),
    decreases ds.len(),
{
    kinds_partition(ds);
    of_kind_contains(ds, i);
    let a = of_kind(ds, false);
    let b = of_kind(ds, true);
    if ds[i].is_unix {
        let k = choose|k: int| 0 <= k < b.len() && b[k] == ds[i];
        assert((a + b)[a.len() + k] == ds[i]);
    } else {
        let k = choose|k: int| 0 <= k < a.len() && a[k] == ds[i];
        assert((a + b)[k] == ds[i]);
    }
}

proof fn kinds_partition(ds: Seq<Descriptor>)
    ensures
        of_kind(ds, false).len() + of_kind(ds, true).len() == ds.len(),
    decreases ds.len(),
{
    if ds.len() > 0 {
        kinds_partition(ds.drop_last());
    }
}

proof fn of_kind_contains(ds: Seq<Descriptor>, i: int)
    requires
        0 <= i < ds.len(),
    ensures
        of_kind(ds, ds[i].is_unix).contains(ds[i]),
    decreases ds.len(),
{
    let kind = ds[i].is_unix;
    if i == ds.len() - 1 {
        assert(of_kind(ds, kind).last() == ds[i]);
    } else {
        of_kind_contains(ds.drop_last(), i);
        let rest = of_kind(ds.drop_last(), kind);
        let k = choose|k: int| 0 <= k < rest.len() && rest[k] == ds[i];
        assert(of_kind(ds, kind)[k] == ds[i]);
    }
}

/// A parent directory is worked in exactly when it belongs to the current user and gives
/// neither group nor others anything, and it is opened exactly when it has mode 0700.
pub proof fn which_parents_are_accepted(ctx: BindContext, uid: u32, mode: u32)
    ensures
        next_phase(Phase::OpenParent, ctx, Event::ParentOpened { uid, mode }) == (if uid != ctx.uid {
            Phase::Failed(Reason::ParentNotOwned)
        } else if mode & 0o070 != 0 || mode & 0o007 != 0 {
            Phase::Failed(Reason::ParentNotPrivate)
        } else {
            Phase::InspectSocket
        }),
        next_phase(Phase::CreateParent, ctx, Event::ParentCreated { mode }) == (if mode & 0o777
            == 0o700 {
            Phase::OpenParent
        } else {
            Phase::Failed(Reason::ParentInsecure { mode: mode & 0o777 })
        }),
        next_phase(Phase::InspectParent, ctx, Event::ParentInspected { symlink: true })
            == Phase::Failed(Reason::ParentIsSymlink),
        next_phase(Phase::InspectParent, ctx, Event::ParentInspected { symlink: false })
            == Phase::CreateParent,
{
    assert(mode & 0o077 == 0 <==> mode & 0o070 == 0 && mode & 0o007 == 0) by (bit_vector);
}

/// What stands at the socket path is left alone unless it is a socket of the current user:
/// everything else that exists is refused, for a reason of its own, and nothing that is missing
/// has to be removed.
pub proof fn which_entries_are_refused(ctx: BindContext, owner: u32)
    ensures
        ({
            let seen = |e: Entry| next_phase(Phase::InspectSocket, ctx, Event::SocketInspected(e));
            &&& seen(Entry::Unreadable) == Phase::Failed(Reason::StaleStat)
            &&& seen(Entry::Symlink) == Phase::Failed(Reason::StaleSymlink)
            &&& seen(Entry::Directory) == Phase::Failed(Reason::StaleDirectory)
            &&& seen(Entry::RegularFile) == Phase::Failed(Reason::StaleRegularFile)
            &&& seen(Entry::Other) == Phase::Failed(Reason::StaleOther)
            &&& owner != ctx.uid ==> seen(Entry::Socket { uid: owner }) == Phase::Failed(
                Reason::StaleNotOwned,
            )
            &&& seen(Entry::Socket { uid: ctx.uid }) == Phase::RemoveStale
            &&& unix_path::file_name(ctx.path@) is Some ==> seen(Entry::Missing) == Phase::Bind
            &&& unix_path::file_name(ctx.path@) is None ==> seen(Entry::Missing) == Phase::Failed(
                Reason::Bind { kind: BindErrorKind::InvalidInput },
            )
        }),
{
}

/// Each operation that fails ends the bind for its own reason, and a bind that has ended stays
/// as it ended.
pub proof fn failed_operations_end_the_bind(ctx: BindContext, kind: BindErrorKind, event: Event)
    ensures
        next_phase(Phase::Activate, ctx, Event::ActivationFailed) == Phase::Failed(
            Reason::Activation,
        ),
        next_phase(Phase::Activate, ctx, Event::ListenerAdopted) == Phase::Inherited,
        next_phase(Phase::CreateParent, ctx, Event::ParentCreateFailed) == Phase::Failed(
            Reason::ParentCreate,
        ),
        next_phase(Phase::CreateParent, ctx, Event::ParentInspectFailed) == Phase::Failed(
            Reason::ParentInspect,
        ),
        next_phase(Phase::OpenParent, ctx, Event::ParentOpenFailed) == Phase::Failed(
            Reason::ParentOpen,
        ),
        next_phase(Phase::RemoveStale, ctx, Event::StaleRemoveFailed) == Phase::Failed(
            Reason::StaleRemove,
        ),
        next_phase(Phase::Bind, ctx, Event::BindFailed(kind)) == Phase::Failed(
            Reason::Bind { kind },
        ),
        next_phase(Phase::Tighten, ctx, Event::TightenFailed) == Phase::Failed(Reason::Chmod),
        next_phase(Phase::Bound, ctx, event) == Phase::Bound,
        next_phase(Phase::Inherited, ctx, event) == Phase::Inherited,
        forall|reason: Reason| #[trigger]
            next_phase(Phase::Failed(reason), ctx, event) == Phase::Failed(reason),
{
}

/// A bind goes on only with what came of the operation that its phase asked for: each other
/// event leaves it where it was.
pub proof fn other_events_change_nothing(phase: Phase, ctx: BindContext, event: Event)
    requires
        match phase {
            Phase::Activate => !(event is ActivationFailed) && !(event is ListenerAdopted) && !(
            event is NoListener),
            Phase::InspectParent => !(event is ParentInspected),
            Phase::CreateParent => !(event is ParentCreateFailed) && !(event
                is ParentInspectFailed) && !(event is ParentCreated),
            Phase::OpenParent => !(event is ParentOpenFailed) && !(event is ParentOpened),
            Phase::InspectSocket => !(event is SocketInspected),
            Phase::RemoveStale => !(event is StaleRemoved) && !(event is StaleRemoveFailed),
            Phase::Bind => !(event is BindSucceeded) && !(event is BindFailed),
            Phase::Tighten => !(event is TightenSucceeded) && !(event is TightenFailed),
            Phase::Bound | Phase::Inherited | Phase::Failed(_) => true,
        },
    ensures
        next_phase(phase, ctx, event) == phase,
{
}

/// Only the daemon looks for an inherited listener, and only where that is allowed; any other
/// bind begins with the parent directory, which the path must have.
pub proof fn where_binds_begin(ctx: BindContext, allow_activation: bool)
    ensures
        first_phase(ctx, allow_activation) == Phase::Activate <==> allow_activation
            && ctx.instance@ == "telora-daemon"@,
        first_phase(ctx, allow_activation) != Phase::Activate ==> first_phase(
            ctx,
            allow_activation,
        ) == next_phase(Phase::Activate, ctx, Event::NoListener),
        first_phase(ctx, false) == (if (unix_path::parent(ctx.path@) matches Some(d) && d.len()
            > 0) {
            Phase::InspectParent
        } else {
            Phase::Failed(Reason::NoParent)
        }),
{
}

/// The pinned path of an entry: the directory of the open descriptors of the process, the
/// number of the descriptor, the name.
pub proof fn pinned_paths_go_through_the_descriptor(fd: u32, name: Seq<u8>)
    requires
        unix_path::plain(name),
    ensures
        unix_path::components(pinned(fd, name)) == unix_path::components(
            vstd::utf8::encode_utf8("/proc/self/fd"@),
        ).push(vstd::utf8::encode_utf8(strings::decimal(fd as nat))).push(name),
{
    let n = strings::decimal(fd as nat);
    strings::decimal_is_digits(fd as nat);
    assert forall|i: int| 0 <= i < n.len() implies '\0' <= #[trigger] n[i] <= '\u{7f}' && n[i]
        != '/' by {
        assert(strings::is_digit(n[i]));
    }
    assert(n.len() == 1 ==> strings::is_digit(n[0]));
    unix_path::ascii_text_is_plain(n);
    let top = vstd::utf8::encode_utf8("/proc/self/fd"@);
    unix_path::join_adds_component(top, vstd::utf8::encode_utf8(n));
    unix_path::join_adds_component(
        unix_path::join(top, vstd::utf8::encode_utf8(n)),
        name,
    );
}

/// What the user reads of a path that is taken, forbidden or unfit, and of any other failure.
pub proof fn bind_wording(path: Seq<u8>, instance: Seq<char>, detail: Seq<char>)
    ensures
        bind_error_text(BindErrorKind::AddrInUse, path, instance, detail) == "another "@ + instance
            + " instance already holds '"@ + basename(path)
            + "' in the user-runtime telora directory; check whether a previous "@ + instance
            + " process is still running before retrying"@,
        bind_error_text(BindErrorKind::PermissionDenied, path, instance, detail) == instance
            + ": permission denied binding socket at '"@ + basename(path)
            + "' — check parent ownership, directory mode, and any MAC policy"@,
        bind_error_text(BindErrorKind::InvalidInput, path, instance, detail) == "socket path '"@
            + basename(path) + "' is invalid or exceeds the Unix socket path limit"@,
        bind_error_text(BindErrorKind::Other, path, instance, detail)
            == "Failed to bind unix socket at "@ + basename(path) + ": "@ + detail,
        basename(path) == (match unix_path::file_name(path) {
            Some(n) if vstd::utf8::valid_utf8(n) => vstd::utf8::decode_utf8(n),
            _ => "<unknown>"@,
        }),
{
}

/// What the user reads of a path on which something is in the way.
pub proof fn stale_wording(ctx: BindContext, detail: Seq<char>)
    ensures
        ({
            let name = basename(ctx.path@);
            &&& failure_text(Reason::StaleDirectory, ctx, detail)
                == "refusing to remove "@ + "directory"@ + " at '"@ + name
                + "'; remove it manually before starting "@ + ctx.instance@
            &&& failure_text(Reason::StaleRegularFile, ctx, detail)
                == "refusing to remove "@ + "regular file"@ + " at '"@ + name
                + "'; remove it manually before starting "@ + ctx.instance@
            &&& failure_text(Reason::StaleOther, ctx, detail)
                == "refusing to remove "@ + "non-socket entry"@ + " at '"@ + name
                + "'; remove it manually before starting "@ + ctx.instance@
            &&& failure_text(Reason::StaleSymlink, ctx, detail)
                == "refusing to bind: symlink at '"@ + name
                + "'; remove it manually after verifying its owner"@
            &&& failure_text(Reason::StaleStat, ctx, detail) == "stat'ing existing socket file "@
                + name + ": "@ + detail
            &&& failure_text(Reason::StaleRemove, ctx, detail) == "removing stale socket "@ + name
                + ": "@ + detail
            &&& failure_text(Reason::StaleNotOwned, ctx, detail) == "stale socket '"@ + name
                + "' in the user-runtime telora directory is not owned by the current user; another "@
                + ctx.instance@
                + " instance appears to be running (or its previous run did not clean up). Use `ls -la <full-path>` to find the owner and `sudo rm <full-path>` to remove it."@
        }),
{
}

/// What the user reads of a parent directory that cannot be used, and of inherited descriptors
/// that could not be received.
pub proof fn parent_wording(ctx: BindContext, mode: u32, kind: BindErrorKind, detail: Seq<char>)
    ensures
        ({
            let dir = match unix_path::parent(ctx.path@) {
                Some(d) if d.len() > 0 => unix_path::shown(d),
                _ => ""@,
            };
            let opening = "opening the socket parent without following symlinks: "@;
            &&& failure_text(Reason::Activation, ctx, detail)
                == "reading systemd activation descriptors: "@ + detail
            &&& failure_text(Reason::NoParent, ctx, detail) == "socket path "@ + basename(ctx.path@)
                + " has no parent directory"@
            &&& failure_text(Reason::ParentIsSymlink, ctx, detail) == "socket parent directory "@
                + dir + " is a symlink; refusing to follow it"@
            &&& failure_text(Reason::ParentCreate, ctx, detail)
                == "ensuring socket parent directory "@ + dir + ": DirBuilder::create("@ + dir
                + "): "@ + detail
            &&& failure_text(Reason::ParentInspect, ctx, detail)
                == "ensuring socket parent directory "@ + dir + ": "@ + detail
            &&& failure_text(Reason::ParentInsecure { mode }, ctx, detail)
                == "ensuring socket parent directory "@ + dir + ": socket directory "@ + dir
                + " has insecure mode "@ + strings::octal(mode as nat) + " (expected 0o700)"@
            &&& failure_text(Reason::ParentOpen, ctx, detail) == opening + detail
            &&& failure_text(Reason::ParentNotOwned, ctx, detail)
                == "opening the socket parent without following symlinks: socket parent directory is not owned by the current user"@
            &&& failure_text(Reason::ParentNotPrivate, ctx, detail)
                == "opening the socket parent without following symlinks: socket parent directory is writable by group or other users"@
            &&& failure_text(Reason::Bind { kind }, ctx, detail) == bind_error_text(
                kind,
                ctx.path@,
                ctx.instance@,
                detail,
            )
            &&& failure_text(Reason::Chmod, ctx, detail) == detail
        }),
{
}

/// Descriptors are gone through by kind, each kind in the order in which it was received: those
/// of two lists one after the other, and a single one where it is of the kind.
pub proof fn kinds_keep_the_order(a: Seq<Descriptor>, b: Seq<Descriptor>, is_unix: bool)
    ensures
        of_kind(a + b, is_unix) == of_kind(a, is_unix) + of_kind(b, is_unix),
        b.len() == 1 && b[0].is_unix == is_unix ==> of_kind(b, is_unix) == b,
        b.len() == 1 && b[0].is_unix != is_unix ==> of_kind(b, is_unix).len() == 0,
    decreases b.len(),
{
    if b.len() == 0 {
        assert(a + b =~= a);
        assert(of_kind(a, is_unix) + of_kind(b, is_unix) =~= of_kind(a, is_unix));
    } else {
        kinds_keep_the_order(a, b.drop_last(), is_unix);
        assert((a + b).drop_last() =~= a + b.drop_last());
        assert(of_kind(a + b, is_unix) =~= of_kind(a, is_unix) + of_kind(b, is_unix));
        if b.len() == 1 {
            assert(of_kind(b.drop_last(), is_unix).len() == 0);
            if b[0].is_unix == is_unix {
                assert(of_kind(b, is_unix) =~= b);
            }
        }
    }
}

/// A descriptor is tried exactly when it is a Unix socket and none has been adopted; what is
/// adopted is the one that was tried with success.
pub proof fn which_descriptors_are_tried(d: Descriptor, adopted: Option<i32>, success: bool)
    ensures
        adopt_action(d, adopted) == AdoptAction::Try(d.fd) <==> d.is_unix && adopted is None,
        adopt_action(d, adopted) == AdoptAction::Close(d.fd) <==> !d.is_unix || adopted is Some,
        d.is_unix && adopted is None && success ==> adopted_after(
            adopt_action(d, adopted),
            adopted,
            success,
        ) == Some(d.fd),
        !(d.is_unix && adopted is None && success) ==> adopted_after(
            adopt_action(d, adopted),
            adopted,
            success,
        ) == adopted,
{
}

/// What each operation of a bind works on: the parent directory of the socket path while that
/// is made ready, then the socket path, then its last component in the opened directory.
pub proof fn operations_stay_on_the_path(a: BindAction, phase: Phase, ctx: BindContext)
    requires
        is_action(a, phase, ctx),
    ensures
        phase == Phase::InspectParent ==> (a matches BindAction::InspectParent { parent } && Some(
            parent@,
        ) == unix_path::parent(ctx.path@)),
        phase == Phase::CreateParent ==> (a matches BindAction::CreateParent { parent, mode }
            && Some(parent@) == unix_path::parent(ctx.path@) && mode == 0o700),
        phase == Phase::OpenParent ==> (a matches BindAction::OpenParent { parent } && Some(parent@)
            == unix_path::parent(ctx.path@)),
        phase == Phase::InspectSocket ==> (a matches BindAction::InspectSocket { path } && path@
            == ctx.path@),
        phase == Phase::RemoveStale ==> (a matches BindAction::RemoveSocket { path } && path@
            == ctx.path@),
        phase == Phase::Bind ==> (a matches BindAction::Bind { name } && name@
            == unix_path::components(ctx.path@).last()),
        phase == Phase::Tighten ==> (a matches BindAction::Tighten { name, mode } && name@
            == unix_path::components(ctx.path@).last() && mode == 0o600),
        phase == Phase::Activate ==> a is ReceiveListener,
        phase is Bound || phase is Inherited || phase is Failed ==> a is Finish,
{
}

/// A phase asks for nothing exactly when the path lacks what it works on: a parent directory
/// that is not empty, or a file name.
pub proof fn which_phases_are_reachable(phase: Phase, ctx: BindContext)
    ensures
        reachable(phase, ctx) <==> (phase is InspectParent || phase is CreateParent || phase
            is OpenParent ==> (unix_path::parent(ctx.path@) matches Some(d) && d.len() > 0)) && (
        phase is Bind || phase is Tighten ==> unix_path::file_name(ctx.path@) is Some),
{
}

/// The descriptors are gone through one by one, and nothing is left to do after the last.
pub proof fn adoption_goes_on_to_the_end(a: Adoption)
    requires
        a.wf(),
    ensures
        a.pending() is Done <==> a.next == a.queue@.len(),
        a.next < a.queue@.len() ==> a.pending() == adopt_action(
            a.queue@[a.next as int],
            a.adopted,
        ),
{
}

} // verus!
