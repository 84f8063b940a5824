use telora::daemon::audio::{
    AudioEngine, AudioError, InputDevice, SampleFormat, StreamConfig, SupportedConfig,
};
use telora::daemon::config::{
    config_files, default_stt_config, load_config, secure_voxora_cache_dir, CacheDirAction,
    CacheDirState, DaemonConfig, Overrides, PathsConfig, SttConfig,
};
use telora::daemon::event_loop::{
    ChunkAction, DaemonLoop, ProcessAction, ReloadAction, State, StopReply,
};
use telora::daemon::socket::{
    classify_status_reply, command_for, model_display, pad, parse_request, refresh_request, reply,
    status_table, stopped_table, Command, Outcome, Request, StatusReply, REFRESH_MAX_BYTES,
};

fn request(payload: &[u8]) -> Request {
    parse_request(&payload.to_vec())
}

fn config(id: &str) -> SttConfig {
    SttConfig { model_id: id.to_string(), ..SttConfig::default() }
}

#[test]
fn start_dispatches_command_start_and_replies_recording() {
    let r = request(b"START");
    assert!(matches!(command_for(&r, None), Some(Command::Start)));
    assert_eq!(reply(&r, &Outcome::Accepted), "STATUS: RECORDING");
}

#[test]
fn cancel_dispatches_command_cancel_and_replies_cancelled() {
    let r = request(b"CANCEL");
    assert!(matches!(command_for(&r, None), Some(Command::Cancel)));
    assert_eq!(reply(&r, &Outcome::Accepted), "STATUS: CANCELLED");
    assert_eq!(reply(&r, &Outcome::ChannelClosed), "STATUS: CANCELLED");
}

#[test]
fn stop_round_trips_transcription_through_response_tx() {
    let r = request(b"STOP");
    assert!(matches!(command_for(&r, None), Some(Command::Stop)));
    assert_eq!(reply(&r, &Outcome::Answer("hola mundo".to_string())), "hola mundo");
}

#[test]
fn status_returns_serialised_status_response() {
    let r = request(b"STATUS");
    assert!(matches!(command_for(&r, None), Some(Command::GetStatus)));
    let mut daemon = DaemonLoop::new(config("test/model.bin"));
    daemon.stt.language = "es".to_string();
    let s = daemon.status(4242);
    assert_eq!(s.model_id, "test/model.bin");
    assert_eq!(s.state, "Idle");
    assert_eq!(s.pid, 4242);
    assert_eq!(s.language, "es");
    assert!(s.active);
    assert_eq!(reply(&r, &Outcome::Answer("{}".to_string())), "{}");
    assert_eq!(reply(&r, &Outcome::Dropped), "ERROR: Failed to get status");
}

#[test]
fn refresh_parses_json_and_dispatches_reload_config() {
    let new_config = SttConfig {
        model_id: "Qwen/Qwen3-ASR-0.6B".to_string(),
        model_kind: "qwen3-asr".to_string(),
        model_path: String::new(),
        language: "en".to_string(),
        max_recording_seconds: 300,
    };
    let json = "{\"model_id\":\"Qwen/Qwen3-ASR-0.6B\",\"model_kind\":\"qwen3-asr\",\"model_path\":\"\",\"language\":\"en\",\"max_recording_seconds\":300}";
    let payload = refresh_request(json);
    assert_eq!(payload, format!("REFRESH {json}"));
    let r = request(payload.as_bytes());
    match &r {
        Request::Refresh(json) => {
            let v: serde_json::Value = serde_json::from_str(json).expect("valid JSON");
            assert_eq!(v["model_id"], "Qwen/Qwen3-ASR-0.6B");
            assert_eq!(v["model_kind"], "qwen3-asr");
        }
        other => panic!("unexpected {other:?}"),
    }
    match command_for(&r, Some(new_config)) {
        Some(Command::ReloadConfig { new_config: received }) => {
            assert_eq!(received.model_id, "Qwen/Qwen3-ASR-0.6B");
            assert_eq!(received.model_kind, "qwen3-asr");
        }
        other => panic!("unexpected {other:?}"),
    }
    assert_eq!(reply(&r, &Outcome::Accepted), "OK: Config reloaded");
}

#[test]
fn refresh_with_malformed_json_reports_parse_error() {
    let r = request(b"REFRESH {garbage}");
    assert!(command_for(&r, None).is_none());
    assert_eq!(
        reply(&r, &Outcome::BadJson("bad".to_string())),
        "ERROR: Invalid config JSON: bad"
    );
    assert_eq!(reply(&r, &Outcome::Dropped), "ERROR: Reload cancelled or failed");
}

#[test]
fn refresh_error_from_event_loop_is_forwarded() {
    let r = request(
        b"REFRESH {\"model_id\":\"err/model.bin\",\"model_kind\":\"\",\"model_path\":\"\",\"language\":\"\",\"max_recording_seconds\":0}",
    );
    assert!(matches!(
        command_for(&r, Some(config("err/model.bin"))),
        Some(Command::ReloadConfig { .. })
    ));
    assert_eq!(reply(&r, &Outcome::Refused("boom".to_string())), "ERROR: boom");
}

#[test]
fn dropped_stop_response_tx_reports_cancelled() {
    assert_eq!(
        reply(&request(b"STOP"), &Outcome::Dropped),
        "ERROR: Transcription cancelled or failed"
    );
}

#[test]
fn closed_command_channel_reports_internal_error() {
    for word in ["START", "STOP", "STATUS", "REFRESH {}"] {
        assert_eq!(
            reply(&request(word.as_bytes()), &Outcome::ChannelClosed),
            "ERROR: Internal channel error"
        );
    }
}

#[test]
fn unknown_command_is_rejected() {
    let r = request(b"AUTO_STOP");
    assert!(matches!(r, Request::Unknown));
    assert!(command_for(&r, None).is_none());
    assert_eq!(reply(&r, &Outcome::Accepted), "ERROR: Unknown command");
    assert!(matches!(request(b"start"), Request::Unknown));
    assert!(matches!(request(b"START\xff"), Request::Unknown));
    assert!(matches!(request(b"  \n"), Request::Unknown));
}

#[test]
fn empty_payload_reports_empty_command() {
    let r = request(b"");
    assert!(matches!(r, Request::Empty));
    assert_eq!(reply(&r, &Outcome::Accepted), "ERROR: empty command");
}

#[test]
fn requests_are_trimmed() {
    assert!(matches!(request(b"STOP\n"), Request::Stop));
    assert!(matches!(request(b" STATUS "), Request::Status));
}

#[test]
fn requests_are_read_up_to_a_limit() {
    let mut payload = b"REFRESH ".to_vec();
    payload.extend_from_slice(&vec![b'x'; REFRESH_MAX_BYTES]);
    match parse_request(&payload) {
        Request::Refresh(json) => assert_eq!(json.len(), REFRESH_MAX_BYTES - 8),
        other => panic!("unexpected {other:?}"),
    }
}

#[test]
fn recording_collects_chunks_and_is_delivered() {
    let mut d = DaemonLoop::new(default_stt_config());
    assert_eq!(d.chunk(&vec![9; 512]), ChunkAction::Dropped);
    d.start();
    assert!(d.takes_chunk(512));
    assert!(!d.takes_chunk(511));
    assert_eq!(d.chunk(&vec![1; 512]), ChunkAction::Kept);
    assert_eq!(d.chunk(&vec![2; 512]), ChunkAction::Kept);
    assert_eq!(d.recording().len(), 1024);
    assert_eq!(d.recording()[0], 1);
    assert_eq!(d.recording()[512], 2);
    assert!(matches!(d.stop(), StopReply::Later));
    assert_eq!(d.state, State::Processing);
    assert_eq!(d.process(), ProcessAction::Transcribe);
    assert_eq!(d.transcribed(&Ok("hola".to_string())), Some("hola".to_string()));
    assert_eq!(d.state, State::Idle);
    assert_eq!(d.process(), ProcessAction::Nothing);
    assert!(d.recording().is_empty());
    match d.stop() {
        StopReply::Now(t) => assert_eq!(t, ""),
        StopReply::Later => panic!("nothing is being recorded"),
    }
}

#[test]
fn full_recording_stops_itself_and_its_text_waits() {
    let mut stt = default_stt_config();
    stt.max_recording_seconds = 0;
    let mut d = DaemonLoop::new(stt);
    d.start();
    assert_eq!(d.chunk(&vec![1; 512]), ChunkAction::AutoStopped);
    assert_eq!(d.process(), ProcessAction::Empty);
    assert_eq!(d.transcribed(&Err("no engine".to_string())), None);
    match d.stop() {
        StopReply::Now(t) => assert_eq!(t, "ERROR: no engine"),
        StopReply::Later => panic!("the text waits"),
    }
    match d.stop() {
        StopReply::Now(t) => assert_eq!(t, ""),
        StopReply::Later => panic!("the text was handed out"),
    }
}

#[test]
fn limit_counts_seconds_of_samples() {
    let mut stt = default_stt_config();
    stt.max_recording_seconds = 1;
    let mut d = DaemonLoop::new(stt);
    d.start();
    let mut kept = 0;
    while d.chunk(&vec![0; 512]) == ChunkAction::Kept {
        kept += 1;
    }
    assert_eq!(kept, 32);
    assert_eq!(d.recording().len(), 16384);
}

#[test]
fn cancel_forgets_everything() {
    let mut d = DaemonLoop::new(default_stt_config());
    d.start();
    d.chunk(&vec![1; 512]);
    d.stop();
    d.cancel();
    assert_eq!(d.state, State::Idle);
    assert!(!d.waiting && d.pending.is_none() && d.recording().is_empty());
}

#[test]
fn failed_reload_changes_nothing() {
    let mut d = DaemonLoop::new(config("old/model"));
    let new = config("new/model");
    assert_eq!(d.reload(&new), ReloadAction::BuildEngine);
    assert_eq!(
        d.engine_built(&new, &Err("no file".to_string())),
        Err("Failed to load model: no file".to_string())
    );
    assert_eq!(d.stt.model_id, "old/model");
    assert_eq!(d.engine_built(&new, &Ok("/m/new".to_string())), Ok(()));
    assert_eq!(d.stt.model_id, "new/model");
    assert_eq!(d.stt.model_path, "/m/new");
    let mut same = config("new/model");
    same.language = "en".to_string();
    assert_eq!(d.reload(&same), ReloadAction::Committed);
    assert_eq!(d.stt.language, "en");
}

#[test]
fn default_configuration_is_documented() {
    let c = default_stt_config();
    assert_eq!(c.model_id, "ggerganov/whisper.cpp/ggml-base.bin");
    assert_eq!(c.model_kind, "whisper");
    assert_eq!(c.language, "es");
    assert_eq!(c.max_recording_seconds, 300);
    assert_eq!(c.model_path, "");
    let d = DaemonConfig::default();
    assert_eq!(d.stt.max_recording_seconds, 300);
    assert!(d.paths.socket_dir.is_none());
    assert!(d.paths.overrides().socket_dir.is_none());
}

#[test]
fn command_line_wins_over_configuration() {
    let read = DaemonConfig {
        stt: SttConfig { model_path: "/old/model.bin".to_string(), ..SttConfig::default() },
        paths: PathsConfig { socket_dir: Some("/s".to_string()), ..PathsConfig::default() },
    };
    let none = Overrides { model_id: None, model_kind: None, language: None, max_recording_seconds: None };
    let c = load_config(read, &none);
    assert_eq!(c.stt.model_id, "/old/model.bin");
    assert_eq!(c.paths.socket_dir.as_deref(), Some("/s"));
    let all = Overrides {
        model_id: Some("a/b".to_string()),
        model_kind: Some("minimax".to_string()),
        language: Some("en".to_string()),
        max_recording_seconds: Some(5),
    };
    let c = load_config(c, &all);
    assert_eq!(c.stt.model_id, "a/b");
    assert_eq!(c.stt.model_kind, "minimax");
    assert_eq!(c.stt.language, "en");
    assert_eq!(c.stt.max_recording_seconds, 5);
}

#[test]
fn configuration_files_in_order() {
    assert_eq!(
        config_files(&Some("/home/u".to_string()), &Some("/x.toml".to_string())),
        vec![
            ("/etc/telora.toml".to_string(), false),
            ("/home/u/.config/telora/config.toml".to_string(), false),
            ("/x.toml".to_string(), true)
        ]
    );
    assert_eq!(config_files(&None, &None)[1].0, "/root/.config/telora/config.toml");
}

#[test]
fn cache_directory_is_created_private_or_left_alone() {
    assert_eq!(secure_voxora_cache_dir(CacheDirState::Missing), CacheDirAction::Create);
    assert_eq!(
        secure_voxora_cache_dir(CacheDirState::Directory { mode: 0o40700 }),
        CacheDirAction::Leave
    );
    assert_eq!(
        secure_voxora_cache_dir(CacheDirState::Directory { mode: 0o40755 }),
        CacheDirAction::WarnShared { mode: 0o755 }
    );
    assert_eq!(
        secure_voxora_cache_dir(CacheDirState::NotADirectory),
        CacheDirAction::WarnNotADirectory
    );
    assert_eq!(
        secure_voxora_cache_dir(CacheDirState::Unreadable),
        CacheDirAction::WarnUnreadable
    );
}

#[test]
fn status_table_is_the_documented_one() {
    let mut d = DaemonLoop::new(default_stt_config());
    d.stt.model_path = "/m/ggml-base.bin".to_string();
    let table = status_table(&d.status(1234));
    let lines: Vec<&str> = table.lines().collect();
    assert_eq!(lines[0], "Telora Daemon Status");
    assert_eq!(
        lines[1],
        "ACTIVE     PID        KIND       MODEL                          LANG       MAX_SEC    STATE          "
    );
    assert_eq!(
        lines[2],
        "---------- ---------- ---------- ------------------------------ ---------- ---------- ---------------"
    );
    assert_eq!(
        lines[3],
        "YES        1234       whisper    ggerganov/whisper.cpp/ggml-b…  es         300        Idle           "
    );
    assert_eq!(lines[4], "");
    assert_eq!(lines[5], "Full Model Id:   ggerganov/whisper.cpp/ggml-base.bin");
    assert_eq!(lines[6], "Resolved Path:   /m/ggml-base.bin");
    assert_eq!(lines[7], "Engine Kind:     whisper");
    assert_eq!(model_display(&"x".repeat(28)), "x".repeat(28));
    assert_eq!(pad("ab", '-', 4), "ab--");
    assert_eq!(pad("abc", '-', 2), "abc");
}

#[test]
fn stopped_daemon_has_a_table_too() {
    let table = stopped_table();
    let lines: Vec<&str> = table.lines().collect();
    assert_eq!(lines.len(), 4);
    assert_eq!(
        lines[3],
        "NO         -          -          -                              -          -          STOPPED        "
    );
}

#[test]
fn status_replies_are_told_apart() {
    assert_eq!(classify_status_reply(" \n"), StatusReply::Empty);
    assert_eq!(classify_status_reply("ERROR: x"), StatusReply::Error);
    assert_eq!(classify_status_reply("{}"), StatusReply::Payload);
    assert_eq!(classify_status_reply(" ERROR"), StatusReply::Payload);
}

#[test]
fn only_exactly_16_khz_mono_is_forced() {
    let default_config = StreamConfig { channels: 2, sample_rate: 48000 };
    let wide = SupportedConfig { channels: 1, min_sample_rate: 1, max_sample_rate: 384000 };
    let exact = SupportedConfig { channels: 1, min_sample_rate: 16000, max_sample_rate: 16000 };
    let mut engine = AudioEngine::new();
    assert_eq!(engine.start(&None), Err(AudioError::NoInputDevice));
    assert_eq!(engine.stream, None);
    let device = InputDevice { format: SampleFormat::I16, default_config, supported: vec![wide] };
    assert_eq!(engine.start(&Some(device)), Ok(48000));
    let device =
        InputDevice { format: SampleFormat::F32, default_config, supported: vec![wide, exact] };
    assert_eq!(engine.start(&Some(device)), Ok(16000));
    assert_eq!(engine.stream, Some(StreamConfig { channels: 1, sample_rate: 16000 }));
    let device = InputDevice { format: SampleFormat::Other, default_config, supported: vec![exact] };
    let refused = engine.start(&Some(device));
    assert_eq!(refused, Err(AudioError::UnsupportedFormat));
    assert_eq!(AudioError::UnsupportedFormat.message(), "Unsupported sample format");
    assert_eq!(AudioError::NoInputDevice.message(), "No input device found");
}
