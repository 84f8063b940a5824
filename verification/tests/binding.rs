use telora::socket_bind::{
    action, adopt_stream_listener, basename_of, bind_unix_socket, bind_unix_socket_manual,
    failure_message, map_bind_error, pinned_path, remove_stale_socket, step, AdoptAction, Adoption,
    BindAction, BindContext, BindErrorKind, Descriptor, Entry, Event, Phase, Reason, Stale,
};
use telora::unix_path::UnixPath;

fn ctx(path: &str, instance: &str) -> BindContext {
    BindContext { path: UnixPath::from_text(path), instance: instance.to_string(), uid: 1000 }
}

fn run(ctx: &BindContext, events: &[Event]) -> Phase {
    let mut phase = bind_unix_socket_manual(ctx);
    for e in events {
        phase = step(phase, ctx, *e);
    }
    phase
}

const OPENED: [Event; 3] = [
    Event::ParentInspected { symlink: false },
    Event::ParentCreated { mode: 0o40700 },
    Event::ParentOpened { uid: 1000, mode: 0o40700 },
];

fn after_open(ctx: &BindContext, events: &[Event]) -> Phase {
    let mut all = OPENED.to_vec();
    all.extend_from_slice(events);
    run(ctx, &all)
}

#[test]
fn bind_creates_0o700_parent_and_0o600_socket() {
    let c = ctx("/x/telora/daemon.sock", "telora-daemon");
    let mut phase = bind_unix_socket_manual(&c);
    match action(phase, &c) {
        BindAction::InspectParent { parent } => assert_eq!(parent.to_text(), "/x/telora"),
        other => panic!("unexpected {other:?}"),
    }
    phase = step(phase, &c, Event::ParentInspected { symlink: false });
    match action(phase, &c) {
        BindAction::CreateParent { parent, mode } => {
            assert_eq!(parent.to_text(), "/x/telora");
            assert_eq!(mode, 0o700);
        }
        other => panic!("unexpected {other:?}"),
    }
    phase = step(phase, &c, Event::ParentCreated { mode: 0o40700 });
    assert!(matches!(action(phase, &c), BindAction::OpenParent { .. }));
    phase = step(phase, &c, Event::ParentOpened { uid: 1000, mode: 0o40700 });
    match action(phase, &c) {
        BindAction::InspectSocket { path } => assert_eq!(path.to_text(), "/x/telora/daemon.sock"),
        other => panic!("unexpected {other:?}"),
    }
    phase = step(phase, &c, Event::SocketInspected(Entry::Missing));
    match action(phase, &c) {
        BindAction::Bind { name } => assert_eq!(name.to_text(), "daemon.sock"),
        other => panic!("unexpected {other:?}"),
    }
    phase = step(phase, &c, Event::BindSucceeded);
    match action(phase, &c) {
        BindAction::Tighten { name, mode } => {
            assert_eq!(name.to_text(), "daemon.sock");
            assert_eq!(mode, 0o600);
        }
        other => panic!("unexpected {other:?}"),
    }
    phase = step(phase, &c, Event::TightenSucceeded);
    assert_eq!(phase, Phase::Bound);
    assert!(matches!(action(phase, &c), BindAction::Finish));
}

#[test]
fn bind_rejects_preexisting_symlink() {
    let c = ctx("/x/daemon.sock", "telora-daemon");
    let phase = after_open(&c, &[Event::SocketInspected(Entry::Symlink)]);
    assert_eq!(phase, Phase::Failed(Reason::StaleSymlink));
    let message = failure_message(Reason::StaleSymlink, &c, "");
    assert!(message.contains("symlink"), "unexpected error: {message}");
    assert_eq!(
        message,
        "refusing to bind: symlink at 'daemon.sock'; remove it manually after verifying its owner"
    );
}

#[test]
fn bind_rejects_symlinked_parent_directory() {
    let c = ctx("/x/linked/daemon.sock", "telora-daemon");
    let phase = run(&c, &[Event::ParentInspected { symlink: true }]);
    assert_eq!(phase, Phase::Failed(Reason::ParentIsSymlink));
    assert_eq!(
        failure_message(Reason::ParentIsSymlink, &c, ""),
        "socket parent directory /x/linked is a symlink; refusing to follow it"
    );
}

#[test]
fn bind_rejects_preexisting_directory() {
    let c = ctx("/x/daemon.sock", "telora-daemon");
    let phase = after_open(&c, &[Event::SocketInspected(Entry::Directory)]);
    assert_eq!(phase, Phase::Failed(Reason::StaleDirectory));
    assert_eq!(
        failure_message(Reason::StaleDirectory, &c, ""),
        "refusing to remove directory at 'daemon.sock'; remove it manually before starting telora-daemon"
    );
}

#[test]
fn bind_rejects_preexisting_regular_file() {
    let c = ctx("/x/daemon.sock", "telora-gui");
    let phase = after_open(&c, &[Event::SocketInspected(Entry::RegularFile)]);
    assert_eq!(phase, Phase::Failed(Reason::StaleRegularFile));
    assert_eq!(
        failure_message(Reason::StaleRegularFile, &c, ""),
        "refusing to remove regular file at 'daemon.sock'; remove it manually before starting telora-gui"
    );
    assert_eq!(
        failure_message(Reason::StaleOther, &c, ""),
        "refusing to remove non-socket entry at 'daemon.sock'; remove it manually before starting telora-gui"
    );
}

#[test]
fn remove_stale_socket_owned_by_other_uid_returns_actionable_error() {
    assert_eq!(remove_stale_socket(Entry::Missing, 1000), Stale::Nothing);
    assert_eq!(
        remove_stale_socket(Entry::Socket { uid: 0 }, 1000),
        Stale::Refuse(Reason::StaleNotOwned)
    );
    let c = ctx("/x/daemon.sock", "telora-daemon");
    assert_eq!(
        failure_message(Reason::StaleNotOwned, &c, ""),
        "stale socket 'daemon.sock' in the user-runtime telora directory is not owned by the current user; another telora-daemon instance appears to be running (or its previous run did not clean up). Use `ls -la <full-path>` to find the owner and `sudo rm <full-path>` to remove it."
    );
}

#[test]
fn bind_is_idempotent_when_socket_already_owned() {
    let c = ctx("/x/daemon.sock", "telora-daemon");
    let phase = after_open(&c, &[Event::SocketInspected(Entry::Socket { uid: 1000 })]);
    assert_eq!(phase, Phase::RemoveStale);
    match action(phase, &c) {
        BindAction::RemoveSocket { path } => assert_eq!(path.to_text(), "/x/daemon.sock"),
        other => panic!("unexpected {other:?}"),
    }
    let bound = after_open(
        &c,
        &[
            Event::SocketInspected(Entry::Socket { uid: 1000 }),
            Event::StaleRemoved,
            Event::BindSucceeded,
            Event::TightenSucceeded,
        ],
    );
    assert_eq!(bound, Phase::Bound);
    assert_eq!(step(phase, &c, Event::StaleRemoveFailed), Phase::Failed(Reason::StaleRemove));
}

#[test]
fn bind_returns_distinct_error_on_enoent_parent() {
    let nested = ctx("/x/does/not/exist/daemon.sock", "telora-daemon");
    let mut phase = step(bind_unix_socket(&nested), &nested, Event::NoListener);
    for e in OPENED {
        phase = step(phase, &nested, e);
    }
    for e in [
        Event::SocketInspected(Entry::Missing),
        Event::BindSucceeded,
        Event::TightenSucceeded,
    ] {
        phase = step(phase, &nested, e);
    }
    assert_eq!(phase, Phase::Bound);
    let c = ctx("daemon.sock", "telora-daemon");
    assert_eq!(bind_unix_socket_manual(&c), Phase::Failed(Reason::NoParent));
    assert_eq!(
        failure_message(Reason::NoParent, &c, ""),
        "socket path daemon.sock has no parent directory"
    );
    let c = ctx("/x/daemon.sock", "telora-daemon");
    let phase = run(&c, &[Event::ParentInspected { symlink: false }, Event::ParentCreateFailed]);
    assert_eq!(phase, Phase::Failed(Reason::ParentCreate));
    assert_eq!(
        failure_message(Reason::ParentCreate, &c, "denied"),
        "ensuring socket parent directory /x: DirBuilder::create(/x): denied"
    );
}

#[test]
fn bind_routes_allow_activation_correctly() {
    let daemon = ctx("/x/daemon.sock", "telora-daemon");
    let gui = ctx("/x/control.sock", "telora-gui");
    assert_eq!(bind_unix_socket(&daemon), Phase::Activate);
    assert_eq!(bind_unix_socket(&gui), Phase::InspectParent);
    assert_eq!(bind_unix_socket_manual(&daemon), Phase::InspectParent);
    assert!(matches!(action(Phase::Activate, &daemon), BindAction::ReceiveListener));
    assert_eq!(step(Phase::Activate, &daemon, Event::ListenerAdopted), Phase::Inherited);
    assert_eq!(step(Phase::Activate, &daemon, Event::NoListener), Phase::InspectParent);
    assert_eq!(
        step(Phase::Activate, &daemon, Event::ActivationFailed),
        Phase::Failed(Reason::Activation)
    );
    assert_eq!(
        failure_message(Reason::Activation, &daemon, "bad"),
        "reading systemd activation descriptors: bad"
    );
}

#[test]
fn foreign_or_shared_parents_are_refused() {
    let c = ctx("/x/daemon.sock", "telora-daemon");
    let created = [Event::ParentInspected { symlink: false }, Event::ParentCreated { mode: 0o755 }];
    assert_eq!(run(&c, &created), Phase::Failed(Reason::ParentInsecure { mode: 0o755 }));
    assert_eq!(
        failure_message(Reason::ParentInsecure { mode: 0o755 }, &c, ""),
        "ensuring socket parent directory /x: socket directory /x has insecure mode 755 (expected 0o700)"
    );
    let created = [Event::ParentInspected { symlink: false }, Event::ParentCreated { mode: 0o500 }];
    assert_eq!(run(&c, &created), Phase::Failed(Reason::ParentInsecure { mode: 0o500 }));
    let ok = [Event::ParentInspected { symlink: false }, Event::ParentCreated { mode: 0o700 }];
    let open = run(&c, &ok);
    assert_eq!(
        step(open, &c, Event::ParentOpened { uid: 1, mode: 0o700 }),
        Phase::Failed(Reason::ParentNotOwned)
    );
    assert_eq!(
        step(open, &c, Event::ParentOpened { uid: 1000, mode: 0o701 }),
        Phase::Failed(Reason::ParentNotPrivate)
    );
    assert_eq!(step(open, &c, Event::ParentOpenFailed), Phase::Failed(Reason::ParentOpen));
    assert_eq!(
        failure_message(Reason::ParentOpen, &c, "ELOOP"),
        "opening the socket parent without following symlinks: ELOOP"
    );
    assert!(failure_message(Reason::ParentNotOwned, &c, "").ends_with("is not owned by the current user"));
    assert!(failure_message(Reason::ParentNotPrivate, &c, "")
        .ends_with("is writable by group or other users"));
    assert_eq!(
        step(Phase::CreateParent, &c, Event::ParentInspectFailed),
        Phase::Failed(Reason::ParentInspect)
    );
    assert_eq!(
        failure_message(Reason::ParentInspect, &c, "gone"),
        "ensuring socket parent directory /x: gone"
    );
}

#[test]
fn bind_errors_are_explained() {
    let path = UnixPath::from_text("/x/daemon.sock");
    assert_eq!(
        map_bind_error(BindErrorKind::AddrInUse, "e", &path, "telora-daemon"),
        "another telora-daemon instance already holds 'daemon.sock' in the user-runtime telora directory; check whether a previous telora-daemon process is still running before retrying"
    );
    assert_eq!(
        map_bind_error(BindErrorKind::PermissionDenied, "e", &path, "telora-gui"),
        "telora-gui: permission denied binding socket at 'daemon.sock' — check parent ownership, directory mode, and any MAC policy"
    );
    assert_eq!(
        map_bind_error(BindErrorKind::InvalidInput, "e", &path, "t"),
        "socket path 'daemon.sock' is invalid or exceeds the Unix socket path limit"
    );
    assert_eq!(
        map_bind_error(BindErrorKind::Other, "weird", &path, "t"),
        "Failed to bind unix socket at daemon.sock: weird"
    );
    let c = ctx("/x/daemon.sock", "t");
    assert_eq!(
        step(Phase::Bind, &c, Event::BindFailed(BindErrorKind::AddrInUse)),
        Phase::Failed(Reason::Bind { kind: BindErrorKind::AddrInUse })
    );
    assert_eq!(step(Phase::Tighten, &c, Event::TightenFailed), Phase::Failed(Reason::Chmod));
    assert_eq!(failure_message(Reason::Chmod, &c, "chmod"), "chmod");
    assert_eq!(
        failure_message(Reason::StaleStat, &c, "io"),
        "stat'ing existing socket file daemon.sock: io"
    );
    assert_eq!(
        failure_message(Reason::StaleRemove, &c, "io"),
        "removing stale socket daemon.sock: io"
    );
    assert_eq!(
        after_open(&c, &[Event::SocketInspected(Entry::Unreadable)]),
        Phase::Failed(Reason::StaleStat)
    );
}

#[test]
fn path_without_file_name_cannot_be_bound() {
    let c = ctx("/x/..", "t");
    assert_eq!(
        after_open(&c, &[Event::SocketInspected(Entry::Missing)]),
        Phase::Failed(Reason::Bind { kind: BindErrorKind::InvalidInput })
    );
    assert_eq!(basename_of(&c.path), "<unknown>");
    assert_eq!(basename_of(&UnixPath { bytes: vec![b'/', 0xfe] }), "<unknown>");
    assert_eq!(pinned_path(7, &UnixPath::from_text("d.sock")).to_text(), "/proc/self/fd/7/d.sock");
}

#[test]
fn events_of_other_phases_change_nothing() {
    let c = ctx("/x/daemon.sock", "t");
    assert_eq!(step(Phase::InspectParent, &c, Event::BindSucceeded), Phase::InspectParent);
    assert_eq!(step(Phase::Bound, &c, Event::TightenFailed), Phase::Bound);
}

#[test]
fn every_descriptor_is_tried_or_closed() {
    let received = vec![
        Descriptor { fd: 3, is_unix: true },
        Descriptor { fd: 4, is_unix: false },
        Descriptor { fd: 5, is_unix: true },
        Descriptor { fd: 6, is_unix: true },
    ];
    let mut adoption = Adoption::new(&received);
    let mut seen = Vec::new();
    loop {
        let now = adoption.action();
        match now {
            AdoptAction::Done => break,
            AdoptAction::Try(fd) => adoption.done(fd == 5),
            AdoptAction::Close(_) => adoption.done(true),
        }
        seen.push(now);
    }
    assert_eq!(
        seen,
        vec![
            AdoptAction::Close(4),
            AdoptAction::Try(3),
            AdoptAction::Try(5),
            AdoptAction::Close(6)
        ]
    );
    assert_eq!(adoption.adopted, Some(5));
    adoption.done(true);
    assert_eq!(adoption.adopted, Some(5));
}

#[test]
fn no_descriptors_means_no_listener() {
    let adoption = Adoption::new(&Vec::new());
    assert_eq!(adoption.action(), AdoptAction::Done);
    assert_eq!(adoption.adopted, None);
    assert!(adopt_stream_listener(true, true));
    assert!(!adopt_stream_listener(true, false));
    assert!(!adopt_stream_listener(false, true));
}
