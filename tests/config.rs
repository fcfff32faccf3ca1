use ciderpress::config::{
    default_lock_timeout_minutes, default_skip_already_transcribed, get_available_models, Config,
    ConfigError, Listing, RootProbe,
    VoiceMemoValidation,
};

#[test]
fn defaults_and_paths() {
    assert_eq!(default_lock_timeout_minutes(), 5);
    assert!(default_skip_already_transcribed());
    let c = Config::default_for_home(&"/Users/me".to_string());
    assert_eq!(c.ciderpress_home, "/Users/me/.ciderpress");
    assert_eq!(
        c.voice_memo_root,
        "/Users/me/Library/Group Containers/group.com.apple.VoiceMemos.shared/Recordings"
    );
    assert_eq!(c.model_name, "base.en");
    assert_eq!(c.lock_timeout_minutes, 5);
    assert_eq!(c.ciderpress_home_path(), "/Users/me/.ciderpress");
    assert_eq!(c.audio_dir(), "/Users/me/.ciderpress/audio");
    assert_eq!(c.transcript_dir(), "/Users/me/.ciderpress/transcripts");
    assert_eq!(c.logs_dir(), "/Users/me/.ciderpress/logs");
    assert_eq!(c.slice_audio_path("a.m4a"), "/Users/me/.ciderpress/audio/a.m4a");
    let mut d = c;
    d.ciderpress_home = "/data/".to_string();
    assert_eq!(d.audio_dir(), "/data/audio");
    d.voice_memo_root = "/memos".to_string();
    assert_eq!(d.voice_memo_root_path(), "/memos");
    assert_eq!(d.recordings_index_path(), "/memos/CloudRecordings.db");
}

fn probe(names: &[&str]) -> RootProbe {
    RootProbe {
        root_exists: true,
        parent_listing: Some(Listing::Listed),
        root_listing: Listing::Listed,
        index_file_exists: false,
        entry_names: names.iter().map(|n| n.to_string()).collect(),
    }
}

#[test]
fn voice_memo_root_validation() {
    let c = Config::default_for_home(&"/h".to_string());
    assert_eq!(c.validate_voice_memo_root(&probe(&["CloudRecordings.db", "a.M4A"])), VoiceMemoValidation::Valid);
    assert_eq!(c.validate_voice_memo_root(&probe(&["a.m4a"])), VoiceMemoValidation::NoDatabaseFound);
    assert_eq!(c.validate_voice_memo_root(&probe(&["CloudRecordings.db", "x.txt"])), VoiceMemoValidation::NoRecordings);
    let mut p = probe(&[]);
    p.root_listing = Listing::PermissionDenied;
    assert_eq!(c.validate_voice_memo_root(&p), VoiceMemoValidation::PermissionDenied);
    p.root_listing = Listing::Failed;
    assert_eq!(c.validate_voice_memo_root(&p), VoiceMemoValidation::NotFound);
    p.root_exists = false;
    p.parent_listing = Some(Listing::PermissionDenied);
    assert_eq!(c.validate_voice_memo_root(&p), VoiceMemoValidation::PermissionDenied);
    p.parent_listing = Some(Listing::Listed);
    assert_eq!(c.validate_voice_memo_root(&p), VoiceMemoValidation::NotFound);
    p.parent_listing = None;
    assert_eq!(c.validate_voice_memo_root(&p), VoiceMemoValidation::NotFound);
}

#[test]
fn model_selection() {
    let mut c = Config::default_for_home(&"/h".to_string());
    assert_eq!(get_available_models().len(), 13);
    assert_eq!(get_available_models()[12], "large-v3-turbo");
    assert_eq!(c.update_transcription_model("small.en".to_string()), Ok(()));
    assert_eq!(c.model_name, "small.en");
    assert_eq!(c.update_transcription_model("large-v3-turbo".to_string()), Err(ConfigError::InvalidModelName));
    assert_eq!(c.update_transcription_model("huge".to_string()), Err(ConfigError::InvalidModelName));
    assert_eq!(c.model_name, "small.en");
}
