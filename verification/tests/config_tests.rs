use murmure::config::{select_first_existing, ServerConfig};
use murmure::errors::SpeechError;
use murmure::model::Model;
use murmure::tts_config::TtsConfig;

fn base_config() -> ServerConfig {
    ServerConfig {
        model_path: Some("from-file".to_string()),
        cc_rules_path: Some("rules-from-file".to_string()),
        dictionary: vec!["file".to_string()],
        grpc_port: 4000,
        log_level: "debug".to_string(),
    }
}

#[test]
fn defaults_are_sensible() {
    let c = ServerConfig::default();
    assert!(c.model_path.is_none());
    assert!(c.cc_rules_path.is_none());
    assert!(c.dictionary.is_empty());
    assert_eq!(c.grpc_port, 50051);
    assert_eq!(c.log_level, "info");
    let t = TtsConfig::default();
    assert!(t.model_path.is_none());
    assert_eq!(t.sample_rate, 22050);
    assert!(t.speaker_id.is_none());
}

#[test]
fn environment_settings_win_in_merge() {
    let env = ServerConfig {
        model_path: Some("from-env".to_string()),
        cc_rules_path: None,
        dictionary: Vec::new(),
        grpc_port: 5000,
        log_level: "warn".to_string(),
    };
    let merged = base_config().merge_with_env(env);
    assert_eq!(merged.model_path.unwrap(), "from-env");
    assert_eq!(merged.cc_rules_path.unwrap(), "rules-from-file");
    assert_eq!(merged.dictionary, vec!["file".to_string()]);
    assert_eq!(merged.grpc_port, 5000);
    assert_eq!(merged.log_level, "warn");
}

#[test]
fn non_empty_environment_dictionary_wins() {
    let env = ServerConfig {
        model_path: None,
        cc_rules_path: None,
        dictionary: vec!["env".to_string()],
        grpc_port: 5000,
        log_level: "info".to_string(),
    };
    let merged = base_config().merge_with_env(env);
    assert_eq!(merged.dictionary, vec!["env".to_string()]);
}

#[test]
fn file_settings_fill_tts_defaults() {
    let env = TtsConfig { model_path: None, sample_rate: 22050, speaker_id: None };
    let file = TtsConfig {
        model_path: Some("voice".to_string()),
        sample_rate: 16000,
        speaker_id: Some(3),
    };
    let merged = env.merge_with_file(file);
    assert_eq!(merged.model_path.unwrap(), "voice");
    assert_eq!(merged.sample_rate, 16000);
    assert_eq!(merged.speaker_id, Some(3));
}

#[test]
fn explicit_tts_settings_survive_the_file() {
    let env = TtsConfig {
        model_path: Some("mine".to_string()),
        sample_rate: 8000,
        speaker_id: Some(1),
    };
    let file = TtsConfig {
        model_path: Some("voice".to_string()),
        sample_rate: 16000,
        speaker_id: Some(3),
    };
    let merged = env.merge_with_file(file);
    assert_eq!(merged.model_path.unwrap(), "mine");
    assert_eq!(merged.sample_rate, 8000);
    assert_eq!(merged.speaker_id, Some(1));
}

#[test]
fn model_candidates_start_with_the_configured_path() {
    let c = base_config();
    let cands = c.model_path_candidates();
    assert_eq!(cands.len(), 4);
    assert_eq!(cands[0], "from-file");
    assert_eq!(cands[1], "resources/parakeet-tdt-0.6b-v3-int8");
    let d = ServerConfig::default();
    assert_eq!(d.model_path_candidates().len(), 3);
    assert_eq!(d.cc_rules_candidates()[0], "resources/cc-rules");
}

#[test]
fn tts_candidates_include_the_legacy_location() {
    let t = TtsConfig::default();
    let cands = t.model_path_candidates();
    assert_eq!(cands.len(), 4);
    assert_eq!(cands[0], "resources/tts");
    assert_eq!(cands[3], "resources/piper-model");
}

#[test]
fn selection_takes_the_first_existing_candidate() {
    let cands = vec!["a".to_string(), "b".to_string(), "c".to_string()];
    let r = select_first_existing(&cands, &vec![false, true, true]).unwrap();
    assert_eq!(r, "b");
}

#[test]
fn selection_fails_when_nothing_exists() {
    let cands = vec!["a".to_string()];
    let r = select_first_existing(&cands, &vec![false]);
    assert!(matches!(r, Err(SpeechError::ResourceMissing)));
    assert_eq!(
        SpeechError::ResourceMissing.message(),
        "correction rules not found"
    );
}

#[test]
fn model_exposes_resolved_path() {
    let m = Model::new(base_config());
    assert!(m.is_available());
    assert_eq!(m.get_model_path().unwrap(), "from-file");
    let none = Model::new(ServerConfig::default());
    assert!(!none.is_available());
    assert!(matches!(none.get_model_path(), Err(SpeechError::EngineUnavailable(_))));
}

#[test]
fn rules_path_absence_is_resource_missing() {
    let c = ServerConfig::default();
    assert!(matches!(c.get_cc_rules_path(), Err(SpeechError::ResourceMissing)));
    assert_eq!(base_config().get_cc_rules_path().unwrap(), "rules-from-file");
}
