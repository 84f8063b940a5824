use telora::ctl::{control_socket_path, control_word, current_uid, ControlCommand};
use telora::env::{telora_env_source, EnvSource};
use telora::gui::clipboard::PasteOutcome;
use telora::gui::config::{
    config_path, path_config_files, ConfigFile, GuiConfig, RawGuiConfig,
};
use telora::gui::connection::{
    auto_stop_word, control_action, daemon_word, next_command, SocketClient,
};
use telora::gui::focus::{focused_app_id, parse_app_ids, probe_argument};
use telora::gui::session::{
    deliver, notice, outcome_osd, AppAction, DaemonCommand, Delivery, GuiSession, Mode, OsdChange,
};
use telora::gui::wayland::{display_socket, timeout_message, wait_for_wayland_display, WaitStep};
use telora::models::{download_report, list_cmd, path_cmd, truncate, CachedModel};
use telora::paths::{resolve, DirOutcome, PathsConfig, Runtime};
use telora::secrets::{
    dotenv_files, effective_value, resolve_minimax_api_key, system_telora_dotenv_path, user_telora_dotenv_path,
};
use telora::unix_path::UnixPath;

fn p(s: &str) -> UnixPath {
    UnixPath::from_text(s)
}

fn some(s: &str) -> Option<String> {
    Some(s.to_string())
}

fn shown(osd: &OsdChange) -> (String, String) {
    match osd {
        OsdChange::Show { text, color } => (text.clone(), color.clone()),
        other => panic!("nothing is shown: {other:?}"),
    }
}

#[test]
fn session_starts_and_stops_for_the_same_thing() {
    let mut s = GuiSession::new();
    let e = s.react(&AppAction::ToggleRecording { mode: Mode::Copy, auto_stop: false });
    assert_eq!(e.command, Some(DaemonCommand::Start));
    assert_eq!(shown(&e.osd), ("● GRABANDO".to_string(), "red".to_string()));
    let e = s.react(&AppAction::OsdUpdate { text: "x".to_string(), color: "y".to_string() });
    assert!(matches!(e.osd, OsdChange::Unchanged));
    let e = s.react(&AppAction::OsdHide);
    assert!(matches!(e.osd, OsdChange::Unchanged));
    let e = s.react(&AppAction::ToggleRecording { mode: Mode::Type, auto_stop: false });
    assert_eq!(e.command, Some(DaemonCommand::Stop { mode: Mode::Copy }));
    assert_eq!(shown(&e.osd), ("Procesando...".to_string(), "orange".to_string()));
    let e = s.react(&AppAction::OsdUpdate { text: "x".to_string(), color: "y".to_string() });
    assert_eq!(shown(&e.osd), ("x".to_string(), "y".to_string()));
    assert!(matches!(s.react(&AppAction::OsdHide).osd, OsdChange::Hide));
}

#[test]
fn repeated_auto_stop_does_nothing() {
    let mut s = GuiSession::new();
    assert_eq!(s.react(&AppAction::AutoStop).command, None);
    s.react(&AppAction::ToggleRecording { mode: Mode::Type, auto_stop: false });
    let e = s.react(&AppAction::AutoStop);
    assert_eq!(e.command, Some(DaemonCommand::Stop { mode: Mode::Type }));
    assert_eq!(shown(&e.osd), ("⏳ LÍMITE ALCANZADO".to_string(), "orange".to_string()));
    let e = s.react(&AppAction::AutoStop);
    assert_eq!(e.command, None);
    assert!(matches!(e.osd, OsdChange::Unchanged));
    assert!(!s.recording);
}

#[test]
fn cancel_hides_the_display_later() {
    let mut s = GuiSession::new();
    assert!(!s.react(&AppAction::CancelRecording).hide_later);
    s.react(&AppAction::ToggleRecording { mode: Mode::Type, auto_stop: false });
    let e = s.react(&AppAction::CancelRecording);
    assert!(e.hide_later);
    assert_eq!(e.command, Some(DaemonCommand::Cancel));
    assert_eq!(shown(&e.osd), ("Cancelado".to_string(), "gray".to_string()));
    s.react(&AppAction::ToggleRecording { mode: Mode::Type, auto_stop: false });
    let e = s.react(&AppAction::ToggleRecording { mode: Mode::Type, auto_stop: true });
    assert_eq!(shown(&e.osd).0, "⏳ LÍMITE ALCANZADO");
}

#[test]
fn answers_are_delivered_cleaned() {
    match deliver(Some(" hola  mundo"), Mode::Type) {
        Delivery::Type(t) => assert_eq!(t, "Hola mundo."),
        other => panic!("unexpected {other:?}"),
    }
    match deliver(Some("hola"), Mode::Copy) {
        Delivery::Copy(t) => assert_eq!(t, "Hola."),
        other => panic!("unexpected {other:?}"),
    }
    assert!(matches!(deliver(Some("hola"), Mode::Auto), Delivery::Type(_)));
    assert!(matches!(deliver(Some("ERROR: x"), Mode::Type), Delivery::Nothing));
    assert!(matches!(deliver(Some(" "), Mode::Type), Delivery::Nothing));
    assert!(matches!(deliver(None, Mode::Type), Delivery::Nothing));
}

#[test]
fn outcomes_are_told_in_spanish() {
    let partial = |n: usize| PasteOutcome::Partial { skipped: vec!["x".to_string(); n] };
    let text = |o: &PasteOutcome, t: bool| outcome_osd(o, t);
    assert_eq!(text(&PasteOutcome::Done, true), ("Escrito".to_string(), "green".to_string()));
    assert_eq!(text(&PasteOutcome::Done, false).0, "Copiado");
    assert_eq!(text(&partial(1), true).0, "Escrito ⚠ 1 tipo perdido");
    assert_eq!(text(&partial(12), false).0, "Copiado ⚠ 12 tipos perdidos");
    assert_eq!(text(&partial(2), true).1, "green");
    assert_eq!(
        text(&PasteOutcome::FallbackSingleMime { reason: "r".to_string() }, true),
        ("⚠ Respaldo simple (formato único)".to_string(), "orange".to_string())
    );
    assert_eq!(
        text(&PasteOutcome::Refused { reason: "r".to_string() }, true),
        ("✘ Cancelado (portapapeles protegido)".to_string(), "gray".to_string())
    );
    assert_eq!(notice(&PasteOutcome::Done, Mode::Type).seconds, 1);
    assert_eq!(notice(&PasteOutcome::Refused { reason: "r".to_string() }, Mode::Copy).seconds, 3);
    let auto = notice(&PasteOutcome::Done, Mode::Auto);
    assert_eq!((auto.text.as_str(), auto.color.as_str(), auto.seconds), ("⏳ LÍMITE ALCANZADO", "orange", 3));
}

#[test]
fn control_words_reach_the_session() {
    for (c, word) in [
        (ControlCommand::ToggleType, "TOGGLE_TYPE"),
        (ControlCommand::ToggleCopy, "TOGGLE_COPY"),
        (ControlCommand::Cancel, "CANCEL"),
    ] {
        assert_eq!(control_word(c), word);
        assert!(control_action(control_word(c)).is_some());
    }
    assert!(matches!(
        control_action("TOGGLE_COPY"),
        Some(AppAction::ToggleRecording { mode: Mode::Copy, auto_stop: false })
    ));
    assert!(matches!(control_action(auto_stop_word()), Some(AppAction::AutoStop)));
    assert!(control_action("toggle_type").is_none());
    assert_eq!(next_command(&b" CANCEL\n".to_vec()), "CANCEL");
    let mut long = vec![b' '; 1024];
    long.extend_from_slice(b"CANCEL");
    assert_eq!(next_command(&long), "");
    assert_eq!(daemon_word(DaemonCommand::Start), "START");
    assert_eq!(daemon_word(DaemonCommand::Stop { mode: Mode::Type }), "STOP");
    assert_eq!(daemon_word(DaemonCommand::Cancel), "CANCEL");
    assert_eq!(SocketClient::answer(&vec![b'a', 0xff]), "a\u{fffd}");
}

#[test]
fn focus_lists_each_application_once() {
    let out = "kitty:~\nfirefox:Docs: x\n\nno colon\n  kitty :again\n:untitled\n foot :\r\n";
    let ids = parse_app_ids(out);
    assert_eq!(ids, vec!["kitty", "firefox", "foot"]);
    assert_eq!(probe_argument("kitty"), "app_id:kitty");
    assert_eq!(focused_app_id(&ids, &vec![false, true, true]), some("firefox"));
    assert_eq!(focused_app_id(&ids, &vec![false, false]), None);
    assert_eq!(focused_app_id(&ids, &vec![false, false, false, true]), None);
    assert!(parse_app_ids("").is_empty());
}

#[test]
fn shortcuts_of_applications_win() {
    let c = GuiConfig::default();
    assert_eq!(c.resolve_paste_shortcut(Some("Alacritty")), "shift+insert");
    assert_eq!(c.resolve_paste_shortcut(Some("kitty")), "ctrl+shift+v");
    assert_eq!(c.resolve_paste_shortcut(Some("alacritty")), "ctrl+v");
    assert_eq!(c.resolve_paste_shortcut(None), "ctrl+v");
    assert_eq!(c.paste_shortcut_by_app.len(), 7);
    assert_eq!(
        c.paste_arguments(Some("Alacritty")),
        vec!["-M", "shift", "-k", "Insert", "-m", "shift"]
    );
    assert_eq!(c.paste_arguments(None), vec!["-M", "ctrl", "-k", "v", "-m", "ctrl"]);
    let raw = RawGuiConfig {
        paste_shortcut: some("ctrl+y"),
        paste_shortcut_by_app: Some(vec![
            ("kitty".to_string(), "alt+v".to_string()),
            ("emacs".to_string(), "ctrl+y".to_string()),
        ]),
    };
    let c = GuiConfig::load(&ConfigFile::Parsed(raw));
    assert_eq!(c.resolve_paste_shortcut(None), "ctrl+y");
    assert_eq!(c.resolve_paste_shortcut(Some("kitty")), "alt+v");
    assert_eq!(c.resolve_paste_shortcut(Some("emacs")), "ctrl+y");
    assert_eq!(c.resolve_paste_shortcut(Some("foot")), "ctrl+shift+v");
    assert_eq!(c.paste_shortcut_by_app.len(), 8);
    let blank = RawGuiConfig { paste_shortcut: some(" "), paste_shortcut_by_app: None };
    assert_eq!(GuiConfig::load(&ConfigFile::Parsed(blank)).paste_shortcut, "ctrl+v");
    for file in [
        ConfigFile::NoPath,
        ConfigFile::Missing,
        ConfigFile::Unreadable,
        ConfigFile::Malformed,
    ] {
        assert_eq!(GuiConfig::load(&file).paste_shortcut, "ctrl+v");
    }
}

#[test]
fn configuration_is_looked_for_in_xdg_first() {
    let path = |x: Option<&str>, h: Option<&str>| {
        config_path(&x.map(|s| s.to_string()), &h.map(|s| s.to_string())).map(|q| q.to_text())
    };
    assert_eq!(path(Some("/x"), Some("/h")), some("/x/telora/gui.toml"));
    assert_eq!(path(Some(""), Some("/h")), some("/h/.config/telora/gui.toml"));
    assert_eq!(path(None, None), None);
    assert_eq!(
        path_config_files(&some("/h")),
        vec!["/etc/telora.toml", "/h/.config/telora/config.toml"]
    );
    assert_eq!(path_config_files(&some("")), vec!["/etc/telora.toml"]);
    assert_eq!(path_config_files(&None), vec!["/etc/telora.toml"]);
}

#[test]
fn compositor_is_waited_for() {
    let secs = |attempt: u32, elapsed: u64| wait_for_wayland_display(attempt, elapsed, 60, false);
    assert_eq!(wait_for_wayland_display(1, 99, 60, true), WaitStep::Ready);
    assert_eq!(secs(1, 60), WaitStep::GiveUp);
    assert_eq!(secs(1, 0), WaitStep::Sleep { seconds: 2 });
    assert_eq!(secs(2, 2), WaitStep::Sleep { seconds: 4 });
    assert_eq!(secs(3, 6), WaitStep::Sleep { seconds: 8 });
    assert_eq!(secs(4, 14), WaitStep::Sleep { seconds: 10 });
    assert_eq!(secs(99, 14), WaitStep::Sleep { seconds: 10 });
    assert_eq!(secs(9, 57), WaitStep::Sleep { seconds: 3 });
    let socket = display_socket(&some("/run/user/1"), &None).expect("set");
    assert_eq!(socket.to_text(), "/run/user/1/wayland-0");
    assert_eq!(
        display_socket(&some("/run/user/1"), &some("/tmp/w")).map(|q| q.to_text()),
        Ok("/tmp/w".to_string())
    );
    assert_eq!(
        display_socket(&None, &None).err(),
        some("XDG_RUNTIME_DIR is not set")
    );
    assert_eq!(
        timeout_message(&socket, 60),
        "Wayland display /run/user/1/wayland-0 not available after 60s"
    );
}

fn env_key(source: &EnvSource, name: &str) -> Option<String> {
    source.collect(name, "v").map(|e| e.0)
}

#[test]
fn telora_paths_socket_dir_env_var_reaches_paths_config() {
    let source = telora_env_source();
    assert_eq!(
        source.collect("TELORA_PATHS__SOCKET_DIR", "/tmp/override"),
        Some(("paths.socket_dir".to_string(), "/tmp/override".to_string()))
    );
    assert_eq!(env_key(&source, "telora_model_id"), some("model_id"));
    assert_eq!(env_key(&source, "TELORA_A___B"), some("a._b"));
    assert_eq!(env_key(&source, "TELORA_"), some(""));
    assert_eq!(env_key(&source, "TELORAX"), None);
    assert_eq!(env_key(&source, "HOME"), None);
    assert_eq!(env_key(&source, "TELORA_Ñ"), some("ñ"));
}

#[test]
fn uid_is_read_from_the_status_text() {
    assert_eq!(current_uid(Some("Name:\tx\nUid:\t1000\t1000\t1000\t1000\nGid:\t5\n")), 1000);
    assert_eq!(current_uid(Some("Uid:\nUid: 7\n")), 7);
    assert_eq!(current_uid(Some("Uid: x\nUid: 7\n")), 0);
    assert_eq!(current_uid(Some(" Uid: 7\n")), 0);
    assert_eq!(current_uid(None), 0);
}

#[test]
fn client_looks_where_the_front_end_listens() {
    let mut env = Runtime {
        daemon_socket: None,
        control_socket: None,
        xdg_runtime_dir: some("/run/user/1000"),
        xdg_writable: true,
        uid: 1000,
        run_user_writable: true,
    };
    let mut cfg = PathsConfig::default();
    let ready = DirOutcome::Mode(0o700);
    let client = |cfg: &PathsConfig, env: &Runtime| {
        let found = control_socket_path(cfg, env).to_text();
        let front_end = resolve(cfg, env, &ready).expect("resolve should succeed");
        assert_eq!(found, front_end.control_sock.to_text());
        found
    };
    assert_eq!(client(&cfg, &env), "/run/user/1000/telora/control.sock");
    cfg.socket_dir = some("/tmp/foo");
    assert_eq!(client(&cfg, &env), "/tmp/foo/control.sock");
    cfg.control_socket = some("/tmp/c.sock");
    assert_eq!(client(&cfg, &env), "/tmp/c.sock");
    env.control_socket = Some(p("/srv/control.sock"));
    assert_eq!(client(&cfg, &env), "/srv/control.sock");
    let bare = Runtime {
        daemon_socket: None,
        control_socket: None,
        xdg_runtime_dir: None,
        xdg_writable: false,
        uid: 42,
        run_user_writable: true,
    };
    assert_eq!(client(&PathsConfig::default(), &bare), "/run/user/42/telora/control.sock");
}

#[test]
fn truncated_text_fits_its_column() {
    assert_eq!(truncate("abcdef", 6), "abcdef");
    assert_eq!(truncate("abcdefg", 6), "...efg");
    assert_eq!(truncate("ñandúes", 5), "...es");
    assert_eq!(truncate("abcdef", 3), "...");
    assert_eq!(truncate("abcdef", 1), "...");
    assert_eq!(truncate("", 0), "");
}

#[test]
fn models_are_listed_in_columns() {
    let list = list_cmd(&vec![
        CachedModel { path: p("/c/a"), size: "1.5 GiB".to_string(), complete: true },
        CachedModel { path: p(&"/x".repeat(50)), size: "3 B".to_string(), complete: false },
    ]);
    let lines: Vec<&str> = list.lines().collect();
    assert_eq!(lines[0], "Models cached by voxora (source-of-truth cache):");
    assert_eq!(lines[1], format!("{:<70} {:<10} COMPLETE", "PATH", "BYTES"));
    assert_eq!(lines[2], format!("{:-<70} {:-<10} {:-<8}", "", "", ""));
    assert_eq!(lines[3], format!("{:<70} {:<10} yes", "/c/a", "1.5 GiB"));
    assert_eq!(lines[4], format!("...x{} {:<10} no", "/x".repeat(33), "3 B"));
    assert_eq!(lines[5], "");
    assert!(lines[6].starts_with("Note: telora-models now uses voxora's cache."));
    assert!(list_cmd(&Vec::new()).starts_with("No models cached yet.\n"));
    assert_eq!(path_cmd(&p("/c")), "Telora (voxora) model cache: /c\n");
    assert_eq!(
        download_report("a/b", &p("/c/a/b"), "F16", "hf"),
        "Model \"a/b\" is ready at /c/a/b.\nQuantization: F16\nSource:       hf\n\nNext: set `model_id = \"a/b\"` in telora.toml and start the daemon.\n"
    );
}

#[test]
fn empty_paths_and_env_falls_through_to_error() {
    let searched = dotenv_files(&Some(p("/nonexistent/telora/.env")), &Some(p("/h/.config")));
    assert_eq!(searched.len(), 1);
    let msg = resolve_minimax_api_key(&searched, &None, &some(" ")).expect_err("no key");
    assert!(msg.contains("MINIMAX_API_KEY"), "must name the variable, got: {msg}");
    assert!(msg.contains("Searched:"), "must enumerate the searched paths, got: {msg}");
    assert!(msg.starts_with("MINIMAX_API_KEY not set. Searched: [\"/nonexistent/telora/.env\"]. Add "));
}

#[test]
fn user_path_resolves_to_xdg_config_home_telora_env() {
    assert_eq!(
        user_telora_dotenv_path(&Some(p("/h/.config"))).map(|q| q.to_text()),
        some("/h/.config/telora/.env")
    );
    assert!(user_telora_dotenv_path(&None).is_none());
    assert_eq!(system_telora_dotenv_path().to_text(), "/etc/telora/.env");
    let both: Vec<String> =
        dotenv_files(&None, &Some(p("/h"))).iter().map(|q| q.to_text()).collect();
    assert_eq!(both, vec!["/etc/telora/.env", "/h/telora/.env"]);
    assert_eq!(dotenv_files(&None, &None).len(), 1);
    let msg = resolve_minimax_api_key(&dotenv_files(&None, &Some(p("/h"))), &None, &None)
        .expect_err("no key");
    assert!(msg.contains("[\"/etc/telora/.env\", \"/h/telora/.env\"]"), "{msg}");
}

#[test]
fn blank_exported_value_does_not_hide_a_file() {
    let in_files = vec![None, some(" "), some("from-dotenv"), some("later")];
    assert_eq!(effective_value(&some("from-env"), &in_files), some("from-env"));
    assert_eq!(effective_value(&some(""), &in_files), some("from-dotenv"));
    assert_eq!(effective_value(&None, &in_files), some("from-dotenv"));
    assert_eq!(effective_value(&None, &vec![None, some("\t")]), None);
}

#[test]
fn prefixed_key_wins_over_the_plain_one() {
    let files = dotenv_files(&None, &None);
    assert_eq!(resolve_minimax_api_key(&files, &some("a"), &some("b")), Ok("a".to_string()));
    assert_eq!(resolve_minimax_api_key(&files, &some(""), &some("b")), Ok("b".to_string()));
}
