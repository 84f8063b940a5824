use telora::gui::clipboard::{
    backup, backup_via_wl_paste, copy_error_reason, fallback_sensitive, has_sensitive_content, is_protocol_error,
    listed_types, log_total_backup_size, outcome_for_skipped, plan_backup, primary_type, restore,
    restore_via_wl_copy, BackupPlan, ClipboardSnapshot, CopyError, Ending, MimeSourceEntry,
    PasteEvent, PasteFlow, PasteOutcome, PastePhase, ReadOutcome, RestorePlan, SENSITIVE_MIME,
    TRANSCRIPTION_MIME,
};
use telora::gui::input::{copy_text, type_text, type_text_direct};
use telora::gui::shortcut::{normalize_key_name, parse_shortcut};

fn entry(mime: &str, data: &[u8]) -> MimeSourceEntry {
    MimeSourceEntry { mime_type: mime.to_string(), data: data.to_vec() }
}

fn types(names: &[&str]) -> Option<Vec<String>> {
    Some(names.iter().map(|n| n.to_string()).collect())
}

#[test]
fn empty_snapshot_has_no_content() {
    let s = ClipboardSnapshot::empty();
    assert!(!s.had_content);
    assert!(s.sources.is_empty());
}

#[test]
fn copy_error_reason_describes_missing_protocol() {
    let e = CopyError::MissingProtocol { name: "ext-data-control".to_string(), version: 1 };
    let r = copy_error_reason(&e);
    assert!(r.contains("ext-data-control"));
    assert!(r.contains("v1"));
    assert_eq!(r, "compositor missing ext-data-control v1");
}

#[test]
fn sensitive_mime_is_in_safety_list() {
    assert_eq!(SENSITIVE_MIME, "x-kde-passwordManagerHint");
}

#[test]
fn paste_outcome_ok_is_not_failure() {
    assert!(!PasteOutcome::Done.is_failure());
    assert!(PasteOutcome::Refused { reason: "x".to_string() }.is_failure());
    assert!(PasteOutcome::FallbackSingleMime { reason: "x".to_string() }.is_failure());
    assert!(!PasteOutcome::Partial { skipped: vec!["text/x-moz-url-priv".to_string()] }.is_failure());
}

#[test]
fn empty_snapshot_has_no_content_and_no_skipped() {
    let s = ClipboardSnapshot::empty();
    assert!(!s.had_content);
    assert!(s.sources.is_empty());
    assert!(s.skipped_mimes.is_empty());
}

#[test]
fn outcome_for_skipped_returns_partial_when_dropped_mimes_present() {
    let snap = ClipboardSnapshot {
        had_content: true,
        sources: vec![entry("text/plain", b"hello")],
        skipped_mimes: vec!["text/_moz_htmlcontext".to_string(), "SAVE_TARGETS".to_string()],
    };
    match outcome_for_skipped(&snap) {
        PasteOutcome::Partial { skipped } => {
            assert_eq!(skipped.len(), 2);
            assert!(skipped.contains(&"SAVE_TARGETS".to_string()));
        }
        other => panic!("expected Partial, got {:?}", other),
    }
}

#[test]
fn outcome_for_skipped_returns_ok_when_no_drops() {
    let snap = ClipboardSnapshot {
        had_content: true,
        sources: vec![entry("text/plain", b"hello")],
        skipped_mimes: Vec::new(),
    };
    assert_eq!(outcome_for_skipped(&snap), PasteOutcome::Done);
}

#[test]
fn outcome_for_skipped_returns_ok_for_empty_snapshot() {
    let snap = ClipboardSnapshot::empty();
    assert_eq!(outcome_for_skipped(&snap), PasteOutcome::Done);
}

#[test]
fn snapshot_preserves_multiple_mime_types() {
    let snap = ClipboardSnapshot {
        had_content: true,
        sources: vec![
            entry("text/plain", b"hola"),
            entry("text/html", b"<b>hola</b>"),
            entry("image/png", &[0x89, 0x50, 0x4e, 0x47]),
        ],
        skipped_mimes: Vec::new(),
    };
    assert_eq!(snap.sources.len(), 3);
    assert!(snap.had_content);
    match restore(&snap) {
        RestorePlan::Offer(all) => {
            assert_eq!(all.len(), 3);
            assert_eq!(all[2].data, vec![0x89, 0x50, 0x4e, 0x47]);
        }
        other => panic!("expected every type to be offered, got {:?}", other),
    }
}

#[test]
fn parse_shortcut_known_combo_yields_correct_args() {
    let args = parse_shortcut("ctrl+shift+v");
    assert_eq!(
        args,
        vec!["-M", "ctrl", "-M", "shift", "-k", "v", "-m", "shift", "-m", "ctrl"]
    );
}

#[test]
fn parse_shortcut_single_key_yields_press_release() {
    let args = parse_shortcut("ctrl+v");
    assert_eq!(args, vec!["-M", "ctrl", "-k", "v", "-m", "ctrl"]);
}

#[test]
fn parse_shortcut_invalid_falls_back_to_ctrl_v() {
    let args = parse_shortcut("ctrl+??");
    assert_eq!(args, vec!["-M", "ctrl", "-k", "v", "-m", "ctrl"]);
}

#[test]
fn parse_shortcut_insert_normalizes_to_xkb_canonical() {
    let args = parse_shortcut("shift+insert");
    assert_eq!(args, vec!["-M", "shift", "-k", "Insert", "-m", "shift"]);
}

#[test]
fn parse_shortcut_function_key_passes_through() {
    let args = parse_shortcut("ctrl+F5");
    assert_eq!(args, vec!["-M", "ctrl", "-k", "F5", "-m", "ctrl"]);
}

#[test]
fn normalize_key_name_aliases() {
    assert_eq!(normalize_key_name("insert"), Some("Insert".to_string()));
    assert_eq!(normalize_key_name("DEL"), Some("Delete".to_string()));
    assert_eq!(normalize_key_name("pgup"), Some("Page_Up".to_string()));
    assert_eq!(normalize_key_name("pgdn"), Some("Page_Down".to_string()));
    assert_eq!(normalize_key_name("Return"), Some("Return".to_string()));
    assert_eq!(normalize_key_name("space"), Some("space".to_string()));
    assert_eq!(normalize_key_name("v"), Some("v".to_string()));
    assert_eq!(normalize_key_name("F12"), Some("F12".to_string()));
    assert_eq!(normalize_key_name("F25"), None);
    assert_eq!(normalize_key_name("nonsense"), None);
}

#[test]
fn normalize_key_name_edges() {
    assert_eq!(normalize_key_name(""), None);
    assert_eq!(normalize_key_name("?"), None);
    assert_eq!(normalize_key_name("ñ"), None);
    assert_eq!(normalize_key_name("V"), Some("v".to_string()));
    assert_eq!(normalize_key_name("7"), Some("7".to_string()));
    assert_eq!(normalize_key_name("f"), Some("f".to_string()));
    assert_eq!(normalize_key_name("f0"), None);
    assert_eq!(normalize_key_name("f1"), Some("F1".to_string()));
    assert_eq!(normalize_key_name("F24"), Some("F24".to_string()));
    assert_eq!(normalize_key_name("f05"), None);
    assert_eq!(normalize_key_name("f+5"), None);
    assert_eq!(normalize_key_name("f5"), Some("F5".to_string()));
    assert_eq!(normalize_key_name("F10"), Some("F10".to_string()));
    assert_eq!(normalize_key_name("home"), Some("Home".to_string()));
    assert_eq!(normalize_key_name("end"), Some("End".to_string()));
    assert_eq!(normalize_key_name("up"), Some("Up".to_string()));
    assert_eq!(normalize_key_name("down"), Some("Down".to_string()));
    assert_eq!(normalize_key_name("left"), Some("Left".to_string()));
    assert_eq!(normalize_key_name("right"), Some("Right".to_string()));
    assert_eq!(normalize_key_name("prior"), Some("Page_Up".to_string()));
    assert_eq!(normalize_key_name("next"), Some("Page_Down".to_string()));
    assert_eq!(normalize_key_name("enter"), Some("Return".to_string()));
    assert_eq!(normalize_key_name("tab"), Some("Tab".to_string()));
    assert_eq!(normalize_key_name("esc"), Some("Escape".to_string()));
    assert_eq!(normalize_key_name("bs"), Some("BackSpace".to_string()));
}

#[test]
fn shortcut_parts_are_trimmed_and_the_last_key_counts() {
    assert_eq!(
        parse_shortcut(" ctrl + alt + a + Tab "),
        vec!["-M", "ctrl", "-M", "alt", "-k", "Tab", "-m", "alt", "-m", "ctrl"]
    );
    assert_eq!(parse_shortcut("super+"), vec!["-M", "ctrl", "-k", "v", "-m", "ctrl"]);
    assert_eq!(parse_shortcut(""), vec!["-M", "ctrl", "-k", "v", "-m", "ctrl"]);
    assert_eq!(parse_shortcut("x"), vec!["-k", "x"]);
}

#[test]
fn backup_keeps_bytes_and_accounts_for_every_type() {
    let ts = types(&["text/plain", "image/png", "text/html"]);
    let reads = vec![
        ReadOutcome::Read(b"hola".to_vec()),
        ReadOutcome::TimedOut,
        ReadOutcome::Read(vec![0, 255]),
    ];
    assert_eq!(plan_backup(&ts), BackupPlan::ReadAll);
    let (snap, missing) = backup(&ts, &reads);
    assert!(!missing);
    assert!(snap.had_content);
    assert_eq!(snap.sources.len(), 2);
    assert_eq!(snap.sources[0].mime_type, "text/plain");
    assert_eq!(snap.sources[0].data, b"hola".to_vec());
    assert_eq!(snap.sources[1].mime_type, "text/html");
    assert_eq!(snap.sources[1].data, vec![0, 255]);
    assert_eq!(snap.skipped_mimes, vec!["image/png"]);
}

#[test]
fn backup_of_unreadable_types_is_empty_but_names_them() {
    let ts = types(&["a/b"]);
    let (snap, missing) = backup(&ts, &vec![ReadOutcome::Failed]);
    assert!(!missing && !snap.had_content && snap.sources.is_empty());
    assert_eq!(snap.skipped_mimes, vec!["a/b"]);
}

#[test]
fn backup_never_reads_a_password() {
    let ts = types(&["text/plain", "x-kde-passwordManagerHint"]);
    assert!(has_sensitive_content(&ts));
    assert_eq!(plan_backup(&ts), BackupPlan::Nothing);
    let (snap, missing) = backup(&ts, &Vec::new());
    assert!(!missing && !snap.had_content && snap.sources.is_empty());
    assert!(!has_sensitive_content(&None));
    assert!(!has_sensitive_content(&types(&["text/plain"])));
}

#[test]
fn backup_without_protocol_or_types() {
    assert_eq!(plan_backup(&None), BackupPlan::ProtocolMissing);
    assert!(backup(&None, &Vec::new()).1);
    assert_eq!(plan_backup(&types(&[])), BackupPlan::Nothing);
    assert!(!backup(&types(&[]), &Vec::new()).1);
}

#[test]
fn fallback_reads_the_first_listed_type() {
    let out = b"  text/html \n\r\ntext/plain\r\n".to_vec();
    assert_eq!(listed_types(&out), vec!["text/html", "text/plain"]);
    assert_eq!(primary_type(&Some(out)), Some("text/html".to_string()));
    assert_eq!(primary_type(&None), None);
    assert_eq!(primary_type(&Some(b"\n \n".to_vec())), None);
    assert_eq!(primary_type(&Some(b"text/plain\nx-kde-passwordManagerHint\n".to_vec())), None);
    let snap = backup_via_wl_paste(&Some("text/html".to_string()), &Some(vec![1, 2]));
    assert!(snap.had_content);
    assert_eq!(snap.sources[0].data, vec![1, 2]);
    assert!(!backup_via_wl_paste(&Some("text/html".to_string()), &None).had_content);
    match restore_via_wl_copy(&snap) {
        RestorePlan::OfferOne(e) => assert_eq!(e.mime_type, "text/html"),
        other => panic!("unexpected {:?}", other),
    }
    assert!(matches!(restore_via_wl_copy(&ClipboardSnapshot::empty()), RestorePlan::Clear));
    assert!(matches!(restore(&ClipboardSnapshot::empty()), RestorePlan::Clear));
}

fn full_snapshot() -> ClipboardSnapshot {
    ClipboardSnapshot {
        had_content: true,
        sources: vec![entry("text/plain", b"antes")],
        skipped_mimes: Vec::new(),
    }
}

#[test]
fn round_trip_restores_what_was_there() {
    let mut flow = PasteFlow::paste_text_via_clipboard("Hola.");
    assert_eq!(flow.phase(), PastePhase::CheckSensitive);
    flow.step(PasteEvent::SensitiveChecked { present: false });
    assert_eq!(flow.phase(), PastePhase::Backup);
    flow.step(PasteEvent::BackedUp { snapshot: full_snapshot(), protocol_missing: false });
    assert_eq!(flow.phase(), PastePhase::Write);
    assert_eq!(
        flow.to_write(),
        ("text/plain;charset=utf-8".to_string(), b"Hola.".to_vec())
    );
    flow.step(PasteEvent::Written);
    assert_eq!(flow.phase(), PastePhase::Press);
    flow.step(PasteEvent::Pressed);
    assert_eq!(flow.phase(), PastePhase::Restore);
    assert_eq!(flow.snapshot().sources[0].data, b"antes".to_vec());
    assert_eq!(flow.outcome(), None);
    flow.step(PasteEvent::Restored);
    assert_eq!(flow.phase(), PastePhase::Finished(Ending::Kept));
    assert_eq!(flow.outcome(), Some(PasteOutcome::Done));
    flow.step(PasteEvent::Written);
    assert_eq!(flow.outcome(), Some(PasteOutcome::Done));
}

#[test]
fn round_trip_is_refused_for_a_password_and_for_nothing() {
    let mut flow = PasteFlow::paste_text_via_clipboard("Hola.");
    flow.step(PasteEvent::SensitiveChecked { present: true });
    assert_eq!(
        flow.outcome(),
        Some(PasteOutcome::Refused {
            reason: "clipboard contains x-kde-passwordManagerHint".to_string()
        })
    );
    let empty = PasteFlow::paste_text_via_clipboard("");
    assert_eq!(
        empty.outcome(),
        Some(PasteOutcome::Refused { reason: "transcription is empty".to_string() })
    );
}

#[test]
fn missing_protocol_falls_back() {
    let mut flow = PasteFlow::paste_text_via_clipboard("Hola.");
    flow.step(PasteEvent::SensitiveChecked { present: false });
    flow.step(PasteEvent::BackedUp { snapshot: ClipboardSnapshot::empty(), protocol_missing: true });
    assert_eq!(flow.phase(), PastePhase::FallbackBackup);
    flow.step(PasteEvent::FallbackBackedUp { snapshot: full_snapshot() });
    flow.step(PasteEvent::Written);
    flow.step(PasteEvent::Pressed);
    assert_eq!(flow.phase(), PastePhase::FallbackRestore);
    flow.step(PasteEvent::Restored);
    assert_eq!(
        flow.outcome(),
        Some(PasteOutcome::FallbackSingleMime {
            reason: "wlr-data-control / ext-data-control not available".to_string()
        })
    );
}

#[test]
fn password_is_not_overwritten_without_the_protocol() {
    assert!(!has_sensitive_content(&None));
    assert!(backup(&None, &Vec::new()).1);
    let listing = Some(b"text/plain\n x-kde-passwordManagerHint \n".to_vec());
    assert!(fallback_sensitive(&listing));
    assert!(!fallback_sensitive(&Some(b"text/plain\n".to_vec())));
    assert!(!fallback_sensitive(&None));
    let mut flow = PasteFlow::paste_text_via_clipboard("Hola.");
    flow.step(PasteEvent::SensitiveChecked { present: false });
    flow.step(PasteEvent::BackedUp { snapshot: ClipboardSnapshot::empty(), protocol_missing: true });
    assert_eq!(flow.phase(), PastePhase::FallbackBackup);
    flow.step(PasteEvent::FallbackSensitive);
    let refused =
        PasteOutcome::Refused { reason: "clipboard contains x-kde-passwordManagerHint".to_string() };
    assert_eq!(flow.outcome(), Some(refused));
    flow.step(PasteEvent::Written);
    assert_eq!(flow.phase(), PastePhase::Finished(Ending::Refused));
}

#[test]
fn password_that_shows_up_in_the_backup_is_not_overwritten() {
    let mut flow = PasteFlow::paste_text_via_clipboard("Hola.");
    flow.step(PasteEvent::SensitiveChecked { present: false });
    flow.step(PasteEvent::SensitiveChecked { present: false });
    assert_eq!(flow.phase(), PastePhase::Backup);
    flow.step(PasteEvent::SensitiveChecked { present: true });
    assert_eq!(flow.phase(), PastePhase::Finished(Ending::Refused));
}

#[test]
fn failed_writes_are_told_apart() {
    let start = || {
        let mut flow = PasteFlow::paste_text_via_clipboard("Hola.");
        flow.step(PasteEvent::SensitiveChecked { present: false });
        flow.step(PasteEvent::BackedUp {
            snapshot: ClipboardSnapshot::empty(),
            protocol_missing: false,
        });
        flow
    };
    let mut flow = start();
    flow.step(PasteEvent::WriteFailed(CopyError::Other("boom".to_string())));
    assert_eq!(
        flow.outcome(),
        Some(PasteOutcome::Refused { reason: "wl-clipboard-rs copy failed: boom".to_string() })
    );
    let mut flow = start();
    flow.step(PasteEvent::WriteFailed(CopyError::WaylandConnection));
    assert_eq!(flow.phase(), PastePhase::FallbackBackup);
    flow.step(PasteEvent::FallbackBackedUp { snapshot: ClipboardSnapshot::empty() });
    flow.step(PasteEvent::FallbackWriteFailed("no tool".to_string()));
    assert_eq!(
        flow.outcome(),
        Some(PasteOutcome::Refused {
            reason: "wl-copy fallback write failed: no tool".to_string()
        })
    );
    let mut flow = start();
    flow.step(PasteEvent::Written);
    flow.step(PasteEvent::Pressed);
    assert_eq!(flow.outcome(), Some(PasteOutcome::Done));
}

#[test]
fn failed_restore_leaves_the_text() {
    let mut flow = PasteFlow::paste_text_via_clipboard("Hola.");
    flow.step(PasteEvent::SensitiveChecked { present: false });
    flow.step(PasteEvent::BackedUp { snapshot: full_snapshot(), protocol_missing: false });
    flow.step(PasteEvent::Written);
    flow.step(PasteEvent::Pressed);
    flow.step(PasteEvent::RestoreFailed(CopyError::WaylandConnection));
    assert_eq!(
        flow.outcome(),
        Some(PasteOutcome::FallbackSingleMime {
            reason: "could not connect to Wayland server".to_string()
        })
    );
    assert!(is_protocol_error(&CopyError::WaylandConnection));
    assert!(!is_protocol_error(&CopyError::Other("x".to_string())));
}

#[test]
fn blank_text_is_neither_typed_nor_copied() {
    assert!(type_text(" \t").is_err());
    assert_eq!(
        type_text("").err(),
        Some(PasteOutcome::Refused { reason: "transcription is empty".to_string() })
    );
    assert_eq!(type_text(" ñ ").map(|f| f.to_write().1).ok(), Some(" ñ ".as_bytes().to_vec()));
    assert_eq!(type_text("a").map(|f| f.phase()).ok(), Some(PastePhase::CheckSensitive));
    assert!(!copy_text("\n"));
    assert!(copy_text("x"));
    assert_eq!(type_text_direct("x", None), (PasteOutcome::Done, false));
    assert_eq!(
        type_text_direct("x", Some("gone")),
        (
            PasteOutcome::Refused {
                reason: "wtype failed and no clipboard paste: gone".to_string()
            },
            true
        )
    );
    assert!(!type_text_direct(" ", Some("gone")).1);
}

#[test]
fn backup_size_is_summed() {
    let size = log_total_backup_size(&vec![entry("a", &[0; 40000]), entry("b", &[0; 30000])]);
    assert_eq!(size.total, 70000);
    assert_eq!(size.largest, 40000);
    assert!(size.large);
    let small = log_total_backup_size(&vec![entry("a", &[0; 65535])]);
    assert!(!small.large);
    assert_eq!(log_total_backup_size(&Vec::new()).largest, 0);
    assert_eq!(TRANSCRIPTION_MIME, "text/plain;charset=utf-8");
}
