use telora::daemon::paths as legacy;
use telora::paths::{
    control_socket_path, daemon_socket_path, default_paths_config, ensure_dir_0700, plan, resolve,
    run_user_dir, DirOutcome, Endpoint, PathsConfig, PathsError, Runtime, DIR_MODE,
};
use telora::unix_path::UnixPath;

fn p(s: &str) -> UnixPath {
    UnixPath::from_text(s)
}

fn runtime(xdg: Option<&str>, xdg_writable: bool, run_user_writable: bool) -> Runtime {
    Runtime {
        daemon_socket: None,
        control_socket: None,
        xdg_runtime_dir: xdg.map(|s| s.to_string()),
        xdg_writable,
        uid: 1000,
        run_user_writable,
    }
}

fn ready() -> DirOutcome {
    DirOutcome::Mode(0o40700)
}

#[test]
fn paths_resolve_prefers_xdg_runtime_dir_when_set() {
    let resolved = resolve(&PathsConfig::default(), &runtime(Some("/tmp/x"), true, true), &ready())
        .expect("resolve should succeed");
    assert_eq!(resolved.socket_dir.to_text(), "/tmp/x/telora");
    assert_eq!(resolved.daemon_sock.to_text(), "/tmp/x/telora/daemon.sock");
    assert_eq!(resolved.control_sock.to_text(), "/tmp/x/telora/control.sock");
}

#[test]
fn paths_resolve_uses_explicit_socket_dir_override() {
    let cfg = PathsConfig { socket_dir: Some("/tmp/x/custom".to_string()), ..PathsConfig::default() };
    let resolved =
        resolve(&cfg, &runtime(Some("/tmp/x"), true, true), &ready()).expect("resolve should succeed");
    assert_eq!(resolved.socket_dir.to_text(), "/tmp/x/custom");
    assert_eq!(resolved.daemon_sock.to_text(), "/tmp/x/custom/daemon.sock");
}

#[test]
fn resolve_prefers_flat_systemd_socket_environment() {
    let mut env = runtime(Some("/tmp/x"), true, true);
    env.daemon_socket = Some(p("/srv/t/daemon.sock"));
    env.control_socket = Some(p("/srv/t/control.sock"));
    let resolved =
        resolve(&PathsConfig::default(), &env, &ready()).expect("resolve should succeed");
    assert_eq!(resolved.daemon_sock.to_text(), "/srv/t/daemon.sock");
    assert_eq!(resolved.control_sock.to_text(), "/srv/t/control.sock");
    assert_eq!(resolved.socket_dir.to_text(), "/srv/t");
}

#[test]
fn resolve_rejects_daemon_socket_path_exceeding_sun_path_limit() {
    let too_long = format!("/{}/{}", "a".repeat(100), "b".repeat(50));
    let cfg = PathsConfig { socket_dir: Some(too_long), ..PathsConfig::default() };
    let joined = format!("{}/daemon.sock", cfg.socket_dir.as_deref().unwrap());
    assert!(
        joined.len() >= 108,
        "test pre-condition: joined path must exceed sun_path limit (got {} bytes)",
        joined.len()
    );
    let err = resolve(&cfg, &runtime(None, false, false), &ready())
        .expect_err("resolve should fail when socket path exceeds sun_path");
    let msg = err.message();
    assert!(msg.contains("sun_path"), "error must mention sun_path; got: {msg}");
    assert_eq!(
        msg,
        format!(
            "validating daemon socket path {joined}: socket path {joined} exceeds Linux sun_path limit (164 bytes, limit 108)"
        )
    );
}

#[test]
fn resolve_accepts_daemon_socket_path_under_sun_path_limit() {
    let dir = format!("/{}", "a".repeat(93));
    let cfg = PathsConfig { socket_dir: Some(dir.clone()), ..PathsConfig::default() };
    let env = runtime(None, false, false);
    assert_eq!(format!("{dir}/control.sock").len(), 107);
    let resolved = resolve(&cfg, &env, &ready()).expect("resolve should succeed");
    assert_eq!(resolved.socket_dir.to_text(), dir);
    assert_eq!(resolved.daemon_sock.to_text(), format!("{dir}/daemon.sock"));
    let cfg = PathsConfig { socket_dir: Some(format!("{dir}a")), ..PathsConfig::default() };
    match plan(&cfg, &env) {
        Err(PathsError::TooLong { endpoint, .. }) => assert_eq!(endpoint, Endpoint::Control),
        other => panic!("unexpected {other:?}"),
    }
}

#[test]
fn daemon_socket_path_returns_resolver_cascade() {
    let env = runtime(Some("/tmp/x"), true, true);
    assert_eq!(daemon_socket_path(&env, &ready()).to_text(), "/tmp/x/telora/daemon.sock");
    assert_eq!(
        daemon_socket_path(&env, &DirOutcome::Mode(0o755)).to_text(),
        "/tmp/telora-1000/daemon.sock"
    );
}

#[test]
fn control_socket_path_returns_resolver_cascade() {
    let env = runtime(Some("/tmp/x"), true, true);
    assert_eq!(control_socket_path(&env, &ready()).to_text(), "/tmp/x/telora/control.sock");
    assert_eq!(
        control_socket_path(&env, &DirOutcome::Failed("no".to_string())).to_text(),
        "/tmp/telora-1000/control.sock"
    );
}

#[test]
fn directory_cascade_goes_down_to_tmp() {
    let cfg = default_paths_config();
    let dir = |env: &Runtime| plan(&cfg, env).expect("fits").socket_dir.to_text();
    assert_eq!(dir(&runtime(Some("/x"), false, true)), "/run/user/1000/telora");
    assert_eq!(dir(&runtime(Some(""), true, true)), "/run/user/1000/telora");
    assert_eq!(dir(&runtime(None, true, false)), "/tmp/telora-1000");
    assert_eq!(run_user_dir(0).to_text(), "/run/user/0");
}

#[test]
fn socket_without_directory_does_not_set_one() {
    let mut env = runtime(Some("/x"), true, true);
    env.daemon_socket = Some(p("daemon.sock"));
    env.control_socket = Some(p(""));
    let cfg = PathsConfig {
        socket_dir: Some("".to_string()),
        daemon_socket: Some("/cfg/d.sock".to_string()),
        control_socket: Some("/cfg/c.sock".to_string()),
    };
    let planned = plan(&cfg, &env).expect("fits");
    assert_eq!(planned.socket_dir.to_text(), "/x/telora");
    assert_eq!(planned.daemon_sock.to_text(), "daemon.sock");
    assert_eq!(planned.control_sock.to_text(), "/cfg/c.sock");
}

#[test]
fn directory_problems_are_reported() {
    let dir = p("/d");
    assert_eq!(DIR_MODE, 0o700);
    assert!(ensure_dir_0700(&dir, &DirOutcome::Mode(0o40700)).is_ok());
    for mode in 0..0o1000u32 {
        let ready = ensure_dir_0700(&dir, &DirOutcome::Mode(0o40000 | mode)).is_ok();
        assert_eq!(ready, mode == 0o700, "{mode:o}");
    }
    let e = ensure_dir_0700(&dir, &DirOutcome::Mode(0o40755)).expect_err("shared");
    assert_eq!(e.message(), "socket directory /d has insecure mode 755 (expected 0o700)");
    let e = ensure_dir_0700(&dir, &DirOutcome::CreateFailed("denied".to_string())).expect_err("no");
    assert_eq!(e.message(), "DirBuilder::create(/d): denied");
    let e = ensure_dir_0700(&dir, &DirOutcome::Failed("gone".to_string())).expect_err("no");
    assert_eq!(e.message(), "gone");
    let err = resolve(
        &default_paths_config(),
        &runtime(None, false, false),
        &DirOutcome::Mode(0o707),
    )
    .expect_err("shared");
    assert_eq!(
        err.message(),
        "creating socket directory /tmp/telora-1000: socket directory /tmp/telora-1000 has insecure mode 707 (expected 0o700)"
    );
}

#[test]
fn legacy_resolver_ignores_socket_variables() {
    let mut env = runtime(Some("/x"), true, true);
    env.daemon_socket = Some(p("/srv/d.sock"));
    let cfg = legacy::default_paths_config();
    let r = legacy::resolve(&cfg, &env, &ready()).expect("resolve should succeed");
    assert_eq!(r.socket_dir.to_text(), "/x/telora");
    assert_eq!(r.daemon_sock.to_text(), "/x/telora/daemon.sock");
    let cfg = legacy::PathsConfig {
        runtime_dir: None,
        socket_dir: Some("/s".to_string()),
        daemon_socket: None,
        control_socket: Some("/c".to_string()),
    };
    let r = legacy::resolve(&cfg, &env, &ready()).expect("resolve should succeed");
    assert_eq!(r.daemon_sock.to_text(), "/s/daemon.sock");
    assert_eq!(r.control_sock.to_text(), "/c");
    let err = legacy::resolve(&cfg, &env, &DirOutcome::Mode(0o777)).expect_err("shared");
    assert_eq!(
        err.message(),
        "creating socket directory /s: socket directory /s has insecure mode 777 (expected 0o700)"
    );
}

#[test]
fn linked_cache_directory_takes_overrides_inside_it() {
    let root = Some(legacy::CacheDir {
        path: p("/home/u/.cache"),
        existing: legacy::Existing::Canonical(p("/data/cache")),
    });
    let sanitize = |s: &str, existing: legacy::Existing| {
        legacy::sanitize_voxora_cache_override(&p(s), &existing, &root).map(|q| q.to_text())
    };
    assert_eq!(
        sanitize("/home/u/.cache/mine", legacy::Existing::Canonical(p("/data/cache/mine"))),
        Some("/data/cache/mine".to_string())
    );
    assert_eq!(
        sanitize("/home/u/.cache/out", legacy::Existing::Canonical(p("/home/u/.cache/out"))),
        None
    );
    assert_eq!(
        sanitize("/home/u/.cache/new", legacy::Existing::No),
        Some("/home/u/.cache/new".to_string())
    );
    assert_eq!(
        legacy::NoCacheDirectory.message(),
        "cannot determine a safe voxora cache directory: dirs::cache_dir() returned None; set $VOXORA_CACHE_DIR or $XDG_CACHE_HOME"
    );
}

fn cache(over: Option<&str>, existing: legacy::Existing, xdg: Option<&str>) -> Option<String> {
    let root = |s| legacy::CacheDir { path: p(s), existing: legacy::Existing::Canonical(p(s)) };
    let over = over.map(|s| s.to_string());
    legacy::default_voxora_cache_dir(&over, &existing, &xdg.map(root)).ok().map(|q| q.to_text())
}

#[test]
fn default_voxora_cache_dir_uses_voxora_models_huggingface_suffix() {
    assert_eq!(
        cache(None, legacy::Existing::No, Some("/c")),
        Some("/c/voxora/models/huggingface".to_string())
    );
    assert_eq!(cache(None, legacy::Existing::No, None), None);
}

#[test]
fn default_voxora_cache_dir_honours_voxora_cache_dir_override() {
    assert_eq!(
        cache(Some("/c/mine"), legacy::Existing::No, Some("/c")),
        Some("/c/mine".to_string())
    );
    assert_eq!(cache(Some("rel"), legacy::Existing::No, Some("/c")), Some("rel".to_string()));
    let outside = || legacy::Existing::Canonical(p("/work/rel"));
    assert_eq!(cache(Some("rel"), outside(), Some("/c")), Some("/work/rel".to_string()));
    assert_eq!(cache(Some("rel"), outside(), None), Some("/work/rel".to_string()));
    assert_eq!(cache(Some("rel"), legacy::Existing::No, None), Some("rel".to_string()));
    assert_eq!(cache(Some("rel"), legacy::Existing::Failed, None), Some("rel".to_string()));
    assert_eq!(cache(Some("/c/mine"), legacy::Existing::No, None), None);
    assert_eq!(
        cache(Some("/c/link"), legacy::Existing::Canonical(p("/out")), Some("/c")),
        Some("/c/voxora/models/huggingface".to_string())
    );
}

#[test]
fn default_voxora_cache_dir_rejects_parent_dir_segments() {
    assert_eq!(
        cache(Some("/tmp/foo/../bar"), legacy::Existing::Canonical(p("/tmp/bar")), Some("/c")),
        Some("/c/voxora/models/huggingface".to_string())
    );
    assert_eq!(
        cache(Some("/c/../etc"), legacy::Existing::No, Some("/c")),
        Some("/c/voxora/models/huggingface".to_string())
    );
    assert_eq!(
        cache(Some("/c/x"), legacy::Existing::Failed, Some("/c")),
        Some("/c/voxora/models/huggingface".to_string())
    );
}
