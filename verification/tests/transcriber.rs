use telora::daemon::transcriber::{
    configured_family, finish_transcript, hub_token, invalid_id_message, iso_to_qwen_name,
    parse_model_id, phase_after_parse, pick_qwen3asr_device, probe_lineage, refuse_if_symlink, resolve_minimax_api_key,
    BridgeTranscriber, Device, EngineFamily, LoadEvent, LoadFault, LoadPhase, NoopTranscriber,
    PathState, Refusal,
};
use telora::unix_path::UnixPath;

fn p(s: &str) -> UnixPath {
    UnixPath::from_text(s)
}

fn some(s: &str) -> Option<String> {
    Some(s.to_string())
}

#[test]
fn iso_to_qwen_known_codes_round_trip() {
    for iso in [
        "en", "zh", "zh-cn", "zh-hans", "yue", "zh-yue", "ar", "de", "fr", "es", "pt", "id", "it",
        "ko", "ru", "th", "vi", "ja", "hi", "ms", "tr", "nl", "sv",
    ] {
        assert!(iso_to_qwen_name(iso).is_some(), "iso {iso:?} should map to a Qwen language name");
    }
    assert!(
        iso_to_qwen_name("bn").is_none(),
        "bn must not be mapped: voxora-qwen3asr does not accept 'bengali'"
    );
}

#[test]
fn iso_to_qwen_rejects_unknown() {
    assert!(iso_to_qwen_name("xx").is_none());
    assert!(iso_to_qwen_name("").is_none());
    assert!(iso_to_qwen_name("bn").is_none(), "bn must not be mapped to a Qwen language name");
}

#[test]
fn iso_to_qwen_is_case_insensitive() {
    assert_eq!(iso_to_qwen_name("EN").unwrap(), "english");
    assert_eq!(iso_to_qwen_name("ZH").unwrap(), "chinese");
}

#[test]
fn qwen_names_are_the_documented_ones() {
    let table = [
        ("zh-hans", "chinese"), ("zh-yue", "cantonese"), ("ar", "arabic"), ("de", "german"),
        ("fr", "french"), ("es", "spanish"), ("pt", "portuguese"), ("id", "indonesian"),
        ("it", "italian"), ("ko", "korean"), ("ru", "russian"), ("th", "thai"),
        ("vi", "vietnamese"), ("ja", "japanese"), ("hi", "hindi"), ("ms", "malay"),
        ("tr", "turkish"), ("nl", "dutch"), ("sv", "swedish"),
    ];
    for (code, name) in table {
        assert_eq!(iso_to_qwen_name(code).as_deref(), Some(name));
    }
}

#[test]
fn minimax_resolver_prefers_explicit_value() {
    let got = resolve_minimax_api_key(
        &some("from-toml"),
        &some("from-env-prefix"),
        &some("from-env-canonical"),
    );
    assert_eq!(got.as_deref(), Some("from-toml"));
}

#[test]
fn minimax_resolver_falls_through_to_env_prefix() {
    let got = resolve_minimax_api_key(&None, &some("from-env-prefix"), &None);
    assert_eq!(got.as_deref(), Some("from-env-prefix"));
}

#[test]
fn minimax_resolver_falls_through_to_canonical_env() {
    let got = resolve_minimax_api_key(&None, &None, &some("from-env-canonical"));
    assert_eq!(got.as_deref(), Some("from-env-canonical"));
}

#[test]
fn minimax_resolver_skips_whitespace_explicit() {
    let got = resolve_minimax_api_key(&some("   "), &None, &some("from-env-canonical"));
    assert_eq!(got.as_deref(), Some("from-env-canonical"));
}

#[test]
fn minimax_resolver_errors_when_no_source_present() {
    assert_eq!(resolve_minimax_api_key(&None, &None, &None), None);
    let t = BridgeTranscriber::from_id("asr", EngineFamily::MiniMax, &None);
    assert_eq!(t.phase(), LoadPhase::Failed(LoadFault::NoKey));
    let blank = BridgeTranscriber::from_id("asr", EngineFamily::MiniMax, &some("   "));
    assert_eq!(blank.phase(), LoadPhase::Failed(LoadFault::NoKey));
    let msg = t.failure_message(LoadFault::NoKey, "");
    assert!(msg.contains("MINIMAX_API_KEY"), "must name the variable, got: {msg}");
}

#[test]
fn families_are_read_from_configuration() {
    assert_eq!(EngineFamily::from_config("Whisper"), Some(EngineFamily::Whisper));
    for s in ["qwen3-asr", "QWEN3ASR", "qwen3_asr"] {
        assert_eq!(EngineFamily::from_config(s), Some(EngineFamily::Qwen3Asr));
    }
    assert_eq!(EngineFamily::from_config("minimax"), Some(EngineFamily::MiniMax));
    assert_eq!(EngineFamily::from_config("whisper "), None);
    assert_eq!(configured_family("minimax"), Ok(EngineFamily::MiniMax));
    assert_eq!(
        configured_family("tal\"vez"),
        Err("unknown model_kind \"tal\\\"vez\"; expected one of `whisper` or `qwen3-asr`".to_string())
    );
    for f in [EngineFamily::Whisper, EngineFamily::Qwen3Asr, EngineFamily::MiniMax] {
        assert_eq!(EngineFamily::from_config(&f.as_config()), Some(f));
    }
}

#[test]
fn model_ids_are_taken_apart() {
    let id = parse_model_id(" ggerganov/whisper.cpp/ggml-large-v3.bin ").expect("valid");
    assert!(!id.local);
    assert_eq!(id.repo, "ggerganov/whisper.cpp");
    assert_eq!(id.path, Some(vec!["ggml-large-v3.bin".to_string()]));
    let id = parse_model_id("Qwen/Qwen3-ASR-0.6B").expect("valid");
    assert_eq!(id.path, None);
    assert!(parse_model_id("/srv/models").expect("valid").local);
    assert_eq!(parse_model_id("  ").err().as_deref(), Some("could not parse model id: empty id"));
    assert!(parse_model_id("a/b/c/d").is_err());
}

#[test]
fn parsed_ids_are_resolved() {
    assert_eq!(phase_after_parse(&parse_model_id("a/b/c.bin")), LoadPhase::Resolve);
    assert_eq!(
        phase_after_parse(&Err("empty".to_string())),
        LoadPhase::Failed(LoadFault::InvalidId)
    );
    assert_eq!(invalid_id_message("\"x\"", "why"), "voxora: invalid model id \"x\": why");
}

fn resolving(id: &str, kind: EngineFamily) -> BridgeTranscriber {
    let mut t = BridgeTranscriber::from_id(id, kind, &None);
    assert_eq!(t.phase(), LoadPhase::Source);
    t.step(&LoadEvent::SourceReady);
    t
}

#[test]
fn from_id_cross_check_rejects_family_id_mismatch() {
    let mut t = resolving("Qwen/Qwen3-ASR-0.6B", EngineFamily::Whisper);
    assert_eq!(t.phase(), LoadPhase::Resolve);
    t.step(&LoadEvent::Resolved {
        family: Some(EngineFamily::Qwen3Asr),
        dir: p("/c/qwen"),
        entry: None,
    });
    assert_eq!(t.phase(), LoadPhase::Failed(LoadFault::FamilyMismatch));
    assert_eq!(
        t.failure_message(LoadFault::FamilyMismatch, "qwen3-asr"),
        "model_kind whisper does not match model_id \"Qwen/Qwen3-ASR-0.6B\" (registry resolved to qwen3-asr); fix your telora.toml"
    );
}

#[test]
fn from_id_two_segment_whisper_rejects_with_actionable_error() {
    let mut t = resolving("ggerganov/whisper.cpp", EngineFamily::Whisper);
    t.step(&LoadEvent::Resolved {
        family: Some(EngineFamily::Whisper),
        dir: p("/c/w"),
        entry: None,
    });
    assert_eq!(t.phase(), LoadPhase::Failed(LoadFault::NoFile));
    assert_eq!(
        t.failure_message(LoadFault::NoFile, ""),
        "whisper model_id \"ggerganov/whisper.cpp\" resolved to a directory but no specific .bin file; use the 3-segment form ggerganov/whisper.cpp/ggml-<variant>.bin"
    );
}

#[test]
fn from_id_surfaces_resolved_path_matching_dir_entry_end_to_end() {
    let mut t = resolving("ggerganov/whisper.cpp/ggml-large-v3.bin", EngineFamily::Whisper);
    t.step(&LoadEvent::Resolved {
        family: Some(EngineFamily::Whisper),
        dir: p("/c/w"),
        entry: Some(p("/c/w/ggml-large-v3.bin")),
    });
    assert_eq!(t.phase(), LoadPhase::Inspect);
    assert_eq!(t.target().to_text(), "/c/w/ggml-large-v3.bin");
    t.step(&LoadEvent::Inspected(Ok(())));
    assert_eq!(t.phase(), LoadPhase::Load(Device::Cuda));
    t.step(&LoadEvent::EngineLoaded);
    assert_eq!(t.phase(), LoadPhase::Done);
    assert_eq!(t.resolved_path(), "/c/w/ggml-large-v3.bin");
    assert_eq!(t.model_id(), "ggerganov/whisper.cpp/ggml-large-v3.bin");
    assert_eq!(t.model_kind(), EngineFamily::Whisper);
}

#[test]
fn from_id_rejects_symlinked_model_file() {
    let refused = refuse_if_symlink(PathState::Symlink, &Vec::new());
    assert_eq!(refused, Err(Refusal::Symlink));
    let mut t = resolving("a/b/c.bin", EngineFamily::Whisper);
    t.step(&LoadEvent::Resolved {
        family: Some(EngineFamily::Whisper),
        dir: p("/c"),
        entry: Some(p("/c/b/c.bin")),
    });
    t.step(&LoadEvent::Inspected(refused));
    let fault = LoadFault::Refused(Refusal::Symlink);
    assert_eq!(t.phase(), LoadPhase::Failed(fault));
    assert_eq!(
        t.failure_message(fault, ""),
        "refusing to load model from symlink \"/c/b/c.bin\"; the voxora cache must contain a regular file"
    );
    assert_eq!(
        t.failure_message(LoadFault::Refused(Refusal::Parent { index: 1 }), ""),
        "refusing to load model: parent \"/c\" of \"/c/b/c.bin\" is a symlink; the voxora cache must contain a regular directory"
    );
    assert_eq!(
        t.failure_message(LoadFault::Refused(Refusal::Unreadable), "EIO"),
        "refusing to load model from \"/c/b/c.bin\": cannot stat (EIO); the voxora cache must be readable"
    );
}

#[test]
fn links_above_a_missing_model_are_refused() {
    let above: Vec<String> = probe_lineage(&p("/c/b/c.bin")).iter().map(|q| q.to_text()).collect();
    assert_eq!(above, vec!["/c/b", "/c", "/"]);
    assert_eq!(probe_lineage(&p("c.bin")).len(), 0);
    assert_eq!(refuse_if_symlink(PathState::Missing, &vec![false, false]), Ok(()));
    assert_eq!(
        refuse_if_symlink(PathState::Missing, &vec![false, true, true]),
        Err(Refusal::Parent { index: 1 })
    );
    assert_eq!(refuse_if_symlink(PathState::Other, &vec![true]), Ok(()));
    assert_eq!(
        refuse_if_symlink(PathState::Unreadable, &Vec::new()),
        Err(Refusal::Unreadable)
    );
}

#[test]
fn qwen_runs_on_the_gpu_only_where_it_can() {
    assert_eq!(pick_qwen3asr_device(Some(7), true), Device::Cuda);
    assert_eq!(pick_qwen3asr_device(Some(6), true), Device::Cpu);
    assert_eq!(pick_qwen3asr_device(Some(8), false), Device::Cpu);
    assert_eq!(pick_qwen3asr_device(None, true), Device::Cpu);
    let mut t = resolving("Qwen/Qwen3-ASR-0.6B", EngineFamily::Qwen3Asr);
    t.step(&LoadEvent::Resolved {
        family: Some(EngineFamily::Qwen3Asr),
        dir: p("/c/q"),
        entry: None,
    });
    t.step(&LoadEvent::Inspected(Ok(())));
    assert_eq!(t.phase(), LoadPhase::Probe);
    t.step(&LoadEvent::Probed { capability: Some(6), created: true });
    assert_eq!(t.phase(), LoadPhase::Load(Device::Cpu));
    t.step(&LoadEvent::EngineFailed);
    assert_eq!(t.phase(), LoadPhase::Failed(LoadFault::Engine));
    assert_eq!(
        t.failure_message(LoadFault::Engine, "oom"),
        "failed to load Qwen3-ASR engine for \"Qwen/Qwen3-ASR-0.6B\": oom"
    );
    assert_eq!(
        t.failure_summary(LoadFault::Engine, "oom"),
        "failed to load Qwen3-ASR engine for \"Qwen/Qwen3-ASR-0.6B\""
    );
    assert_eq!(
        t.failure_summary(LoadFault::Source, "x"),
        "failed to build HuggingFaceSource"
    );
    assert_eq!(t.failure_summary(LoadFault::Resolve, "x"), "voxora: x");
}

#[test]
fn invalid_ids_and_failed_sources_are_reported() {
    let t = resolving("nope", EngineFamily::Whisper);
    assert_eq!(t.phase(), LoadPhase::Failed(LoadFault::InvalidId));
    assert_eq!(
        t.failure_message(LoadFault::InvalidId, ""),
        "voxora: invalid model id \"nope\": could not parse model id: HF id must have 2 or 3 segments, got 1: \"nope\""
    );
    let mut t = BridgeTranscriber::from_id("a/b/c", EngineFamily::Whisper, &None);
    t.step(&LoadEvent::SourceFailed);
    assert_eq!(t.phase(), LoadPhase::Failed(LoadFault::Source));
    assert_eq!(
        t.failure_message(LoadFault::Source, "x"),
        "failed to build HuggingFaceSource: x"
    );
    let mut t = resolving("a/b/c", EngineFamily::Whisper);
    t.step(&LoadEvent::ResolveFailed);
    assert_eq!(t.phase(), LoadPhase::Failed(LoadFault::Resolve));
    assert_eq!(t.failure_message(LoadFault::Resolve, "x"), "voxora: x");
    assert_eq!(
        t.failure_message(LoadFault::NoAdapter, ""),
        "model_kind Whisper has no voxora engine adapter wired up in telora; current set: Whisper, Qwen3Asr, MiniMax"
    );
    assert_eq!(
        t.failure_message(LoadFault::Engine, "x"),
        "failed to load Whisper model from : x"
    );
}

#[test]
fn hosted_engine_needs_no_model() {
    let mut t = BridgeTranscriber::from_id("asr-1.0", EngineFamily::MiniMax, &some("k"));
    assert_eq!(t.phase(), LoadPhase::Hosted);
    t.step(&LoadEvent::SourceReady);
    assert_eq!(t.phase(), LoadPhase::Hosted);
    t.step(&LoadEvent::HostedReady {
        endpoint: "https://api.minimax.io".to_string(),
        model: "asr-1.0".to_string(),
    });
    assert_eq!(t.phase(), LoadPhase::Done);
    assert_eq!(
        t.resolved_path(),
        "hosted://https://api.minimax.io/v1/speech_to_text (model: asr-1.0)"
    );
    let mut t = BridgeTranscriber::from_id("asr-1.0", EngineFamily::MiniMax, &some("k"));
    t.step(&LoadEvent::HostedConfigFailed);
    assert_eq!(t.phase(), LoadPhase::Failed(LoadFault::HostedConfig));
    assert_eq!(t.failure_message(LoadFault::HostedConfig, "x"), "voxora-minimax: x");
    let mut t = BridgeTranscriber::from_id("asr-1.0", EngineFamily::MiniMax, &some("k"));
    t.step(&LoadEvent::HostedEngineFailed);
    assert_eq!(t.phase(), LoadPhase::Failed(LoadFault::HostedEngine));
    assert_eq!(t.failure_message(LoadFault::HostedEngine, "x"), "voxora: x");
}

#[test]
fn languages_are_spoken_as_the_engine_wants() {
    let whisper = BridgeTranscriber::from_id("a/b/c", EngineFamily::Whisper, &None);
    let qwen = BridgeTranscriber::from_id("a/b", EngineFamily::Qwen3Asr, &None);
    let hosted = BridgeTranscriber::from_id("x", EngineFamily::MiniMax, &some("k"));
    assert_eq!(whisper.transcribe_language(Some("ES")), Ok("es".to_string()));
    assert_eq!(hosted.transcribe_language(Some("EN")), Ok("en".to_string()));
    assert_eq!(qwen.transcribe_language(Some("Es")), Ok("spanish".to_string()));
    assert_eq!(
        qwen.transcribe_language(Some("bn")),
        Err("language code \"bn\" is not supported by qwen3-asr; see `voxora_bridge::known_languages` for the accepted set".to_string())
    );
    assert_eq!(whisper.transcribe_language(None), Ok("auto".to_string()));
    assert_eq!(qwen.transcribe_language(None), Ok("auto".to_string()));
    assert_eq!(hosted.transcribe_language(None), Ok("".to_string()));
    assert_eq!(whisper.map_language("xx"), some("xx"));
    assert_eq!(finish_transcript("  hola \n"), "hola");
    assert_eq!(NoopTranscriber.transcribe(Some("es")), "");
}

#[test]
fn first_token_wins() {
    assert_eq!(hub_token(&some("a"), &some("b")), some("a"));
    assert_eq!(hub_token(&None, &some("b")), some("b"));
    assert_eq!(hub_token(&None, &None), None);
}
