use vstd::prelude::*;
use vstd::string::*;
use crate::text::{has_audio_extension, is_audio_name, join_path, joined};

verus! {

// Settings of the library and the layout of its managed directories.

/// Minutes of inactivity before the app locks, unless configured.
pub fn default_lock_timeout_minutes() -> (r: u32)
    ensures
        r == 5,
{
    5
}

/// Already transcribed slices are skipped unless configured otherwise.
pub fn default_skip_already_transcribed() -> (r: bool)
    ensures
        r,
{
    true
}

/// Name of the recordings index file kept beside the voice memos.
pub open spec fn index_file_name() -> Seq<char> {
    "CloudRecordings.db"@
}

/// How the voice memo directory looks.
#[derive(PartialEq, Eq, Structural, Clone, Copy, Debug)]
pub enum VoiceMemoValidation {
    /// It exists and holds the index file and recordings.
    Valid,
    /// Listing it (or, where it seems absent, its parent) was refused.
    PermissionDenied,
    /// It does not exist.
    NotFound,
    /// It exists but holds no index file.
    NoDatabaseFound,
    /// It holds the index file but no recordings.
    NoRecordings,
}

/// The result of trying to list a directory.
#[derive(PartialEq, Eq, Structural, Clone, Copy, Debug)]
pub enum Listing {
    Listed,
    PermissionDenied,
    Failed,
}

/// What was found on disk about the voice memo directory.
pub struct RootProbe {
    /// The directory is visible.
    pub root_exists: bool,
    /// Listing its parent, when it has one.
    pub parent_listing: Option<Listing>,
    /// Listing the directory itself.
    pub root_listing: Listing,
    /// The index file is visible under the directory.
    pub index_file_exists: bool,
    /// Names of the directory's entries (when it could be listed).
    pub entry_names: Vec<String>,
}

pub open spec fn validation_of(p: RootProbe) -> VoiceMemoValidation {
    if !p.root_exists {
        match p.parent_listing {
            Some(Listing::PermissionDenied) => VoiceMemoValidation::PermissionDenied,
            _ => VoiceMemoValidation::NotFound,
        }
    } else {
        match p.root_listing {
            Listing::PermissionDenied => VoiceMemoValidation::PermissionDenied,
            Listing::Failed => VoiceMemoValidation::NotFound,
            Listing::Listed => {
                let has_db = p.index_file_exists || exists|i: int|
                    0 <= i < p.entry_names@.len() && (#[trigger] p.entry_names@[i])@
                        == index_file_name();
                let has_audio = exists|i: int|
                    0 <= i < p.entry_names@.len() && is_audio_name(
                        (#[trigger] p.entry_names@[i])@,
                    );
                if !has_db {
                    VoiceMemoValidation::NoDatabaseFound
                } else if !has_audio {
                    VoiceMemoValidation::NoRecordings
                } else {
                    VoiceMemoValidation::Valid
                }
            },
        }
    }
}

/// The model names a user may choose.
pub open spec fn selectable_model(name: Seq<char>) -> bool {
    name == "tiny"@ || name == "tiny.en"@ || name == "base"@ || name == "base.en"@ || name == "small"@
        || name == "small.en"@ || name == "medium"@ || name == "medium.en"@ || name == "large"@ || name
        == "large-v1"@ || name == "large-v2"@ || name == "large-v3"@
}

/// Why a setting was refused.
#[derive(PartialEq, Eq, Structural, Clone, Copy, Debug)]
pub enum ConfigError {
    InvalidModelName,
}

/// The model names the speech engine offers, in order of size.
pub open spec fn model_names() -> Seq<Seq<char>> {
    seq![
        "tiny"@, "tiny.en"@, "base"@, "base.en"@, "small"@, "small.en"@, "medium"@, "medium.en"@,
        "large"@, "large-v1"@, "large-v2"@, "large-v3"@, "large-v3-turbo"@,
    ]
}

/// The model names the speech engine offers.
pub fn get_available_models() -> (r: Vec<String>)
    ensures
        r@.len() == model_names().len(),
        forall|i: int| 0 <= i < r@.len() ==> (#[trigger] r@[i])@ == model_names()[i],
{
    let mut v: Vec<String> = Vec::new();
    v.push(String::from_str("tiny"));
    v.push(String::from_str("tiny.en"));
    v.push(String::from_str("base"));
    v.push(String::from_str("base.en"));
    v.push(String::from_str("small"));
    v.push(String::from_str("small.en"));
    v.push(String::from_str("medium"));
    v.push(String::from_str("medium.en"));
    v.push(String::from_str("large"));
    v.push(String::from_str("large-v1"));
    v.push(String::from_str("large-v2"));
    v.push(String::from_str("large-v3"));
    v.push(String::from_str("large-v3-turbo"));
    v
}

/// The settings.
pub struct Config {
    pub voice_memo_root: String,
    pub ciderpress_home: String,
    pub model_name: String,
    pub first_run_complete: bool,
    pub skip_already_transcribed: bool,
    pub password_enabled: bool,
    pub password_hash: Option<String>,
    pub lock_timeout_minutes: u32,
}

impl Config {
    /// The settings a first run starts from, for a user whose home directory is `home`.
    pub fn default_for_home(home: &String) -> (r: Config)
        ensures
            r.voice_memo_root@ == joined(
                home@,
                "Library/Group Containers/group.com.apple.VoiceMemos.shared/Recordings"@,
            ),
            r.ciderpress_home@ == joined(home@, ".ciderpress"@),
            r.model_name@ == "base.en"@,
            !r.first_run_complete,
            r.skip_already_transcribed,
            !r.password_enabled,
            r.password_hash is None,
            r.lock_timeout_minutes == 5,
    {
        Config {
            voice_memo_root: join_path(
                home,
                "Library/Group Containers/group.com.apple.VoiceMemos.shared/Recordings",
            ),
            ciderpress_home: join_path(home, ".ciderpress"),
            model_name: String::from_str("base.en"),
            first_run_complete: false,
            skip_already_transcribed: default_skip_already_transcribed(),
            password_enabled: false,
            password_hash: None,
            lock_timeout_minutes: default_lock_timeout_minutes(),
        }
    }

    /// Switches to the model named `model_name`, one of the selectable ones;
    /// any other name is refused and the settings stay as they were.
    pub fn update_transcription_model(&mut self, model_name: String) -> (r: Result<(), ConfigError>)
        ensures
            r is Ok <==> selectable_model(model_name@),
            r is Ok ==> *final(self) == (Config { model_name: model_name, ..*old(self) }),
            r is Err ==> *final(self) == *old(self) && r == Err::<(), ConfigError>(ConfigError::InvalidModelName),
    {
        let names = get_available_models();
        let mut i: usize = 0;
        while i < 12
            invariant
                *self == *old(self),
                names@.len() == model_names().len(),
                forall|k: int| 0 <= k < names@.len() ==> (#[trigger] names@[k])@ == model_names()[k],
                i <= 12,
                forall|k: int| 0 <= k < i ==> model_names()[k] != model_name@,
            decreases 12 - i,
        {
            if names[i] == model_name {
                assert(model_names()[i as int] == model_name@);
                self.model_name = model_name;
                return Ok(());
            }
            i += 1;
        }
        assert(!selectable_model(model_name@)) by {
            assert(model_names()[0] == "tiny"@);
            assert(model_names()[11] == "large-v3"@);
        }
        Err(ConfigError::InvalidModelName)
    }

    /// The managed home directory.
    pub fn ciderpress_home_path(&self) -> (r: String)
        ensures
            r@ == self.ciderpress_home@,
    {
        self.ciderpress_home.clone()
    }

    /// The directory the voice memos are read from.
    pub fn voice_memo_root_path(&self) -> (r: String)
        ensures
            r@ == self.voice_memo_root@,
    {
        self.voice_memo_root.clone()
    }

    /// Where migrated audio is kept.
    pub fn audio_dir(&self) -> (r: String)
        ensures
            r@ == joined(self.ciderpress_home@, "audio"@),
    {
        join_path(&self.ciderpress_home, "audio")
    }

    /// Where exported transcripts go.
    pub fn transcript_dir(&self) -> (r: String)
        ensures
            r@ == joined(self.ciderpress_home@, "transcripts"@),
    {
        join_path(&self.ciderpress_home, "transcripts")
    }

    /// Where logs go.
    pub fn logs_dir(&self) -> (r: String)
        ensures
            r@ == joined(self.ciderpress_home@, "logs"@),
    {
        join_path(&self.ciderpress_home, "logs")
    }

    /// Where the recordings index file of the voice memo directory is.
    pub fn recordings_index_path(&self) -> (r: String)
        ensures
            r@ == joined(self.voice_memo_root@, index_file_name()),
    {
        join_path(&self.voice_memo_root, "CloudRecordings.db")
    }

    /// Where the audio of a slice named `file_name` is kept.
    pub fn slice_audio_path(&self, file_name: &str) -> (r: String)
        ensures
            r@ == joined(joined(self.ciderpress_home@, "audio"@), file_name@),
    {
        let dir = self.audio_dir();
        join_path(&dir, file_name)
    }

    /// Classifies the voice memo directory from what was found on disk,
    /// telling a refused listing apart from a missing directory.
    pub fn validate_voice_memo_root(&self, probe: &RootProbe) -> (r: VoiceMemoValidation)
        ensures
            r == validation_of(*probe),
    {
        if !probe.root_exists {
            return match probe.parent_listing {
                Some(Listing::PermissionDenied) => VoiceMemoValidation::PermissionDenied,
                _ => VoiceMemoValidation::NotFound,
            };
        }
        match probe.root_listing {
            Listing::PermissionDenied => VoiceMemoValidation::PermissionDenied,
            Listing::Failed => VoiceMemoValidation::NotFound,
            Listing::Listed => {
                let index_name = String::from_str("CloudRecordings.db");
                let mut has_db = probe.index_file_exists;
                let mut has_audio = false;
                let mut i: usize = 0;
                while i < probe.entry_names.len()
                    invariant
                        i <= probe.entry_names@.len(),
                        index_name@ == index_file_name(),
                        has_db == (probe.index_file_exists || exists|k: int|
                            0 <= k < i && (#[trigger] probe.entry_names@[k])@ == index_file_name()),
                        has_audio == (exists|k: int|
                            0 <= k < i && is_audio_name((#[trigger] probe.entry_names@[k])@)),
                    decreases probe.entry_names@.len() - i,
                {
                    let name = &probe.entry_names[i];
                    if has_audio_extension(name.as_str()) {
                        has_audio = true;
                    }
                    if *name == index_name {
                        has_db = true;
                    }
                    proof {
                        assert(has_db == (probe.index_file_exists || exists|k: int|
                            0 <= k < i + 1 && (#[trigger] probe.entry_names@[k])@ == index_file_name())) by {
                            if (*name)@ == index_file_name() {
                                assert(probe.entry_names@[i as int]@ == index_file_name());
                            }
                        }
                        assert(has_audio == (exists|k: int|
                            0 <= k < i + 1 && is_audio_name((#[trigger] probe.entry_names@[k])@))) by {
                            if is_audio_name((*name)@) {
                                assert(is_audio_name(probe.entry_names@[i as int]@));
                            }
                        }
                    }
                    i += 1;
                }
                if !has_db {
                    VoiceMemoValidation::NoDatabaseFound
                } else if !has_audio {
                    VoiceMemoValidation::NoRecordings
                } else {
                    VoiceMemoValidation::Valid
                }
            },
        }
    }
}

} // verus!
