use vstd::prelude::*;
use vstd::string::*;
use crate::catalog::{has_name, name_of, valid_slice, Catalog, CatalogError, Slice};
use crate::config::Config;
use crate::estimate::{estimate_of, estimate_transcription_time};
use crate::recording_index::{date_for_name, RecordingIndex, RecordingIndexEntry};
use crate::text::{decimal_text, decimal_unsigned, has_audio_extension, is_audio_name};

verus! {

// Migration: scan the voice memo directory, copy each recording not yet in
// the catalog into managed storage, and catalog it.
//
// The engine makes every decision; the caller performs the file system work
// it asks for (listing, copying, probing) and reports what happened.

/// Counts of one migration run.
pub struct MigrationSummary {
    pub copied: u32,
    pub skipped: u32,
    pub errors: u32,
    pub total_size_bytes: u64,
}

/// The snapshot of a migration in progress that observers poll.
pub struct MigrationProgress {
    pub total_recordings: u32,
    pub processed_recordings: u32,
    pub failed_recordings: u32,
    pub current_recording: Option<String>,
    pub current_step: String,
    pub total_size_bytes: u64,
    pub processed_size_bytes: u64,
}

impl MigrationProgress {
    /// A field-for-field copy.
    pub fn duplicate(&self) -> (r: MigrationProgress)
        ensures
            r == *self,
    {
        MigrationProgress {
            total_recordings: self.total_recordings,
            processed_recordings: self.processed_recordings,
            failed_recordings: self.failed_recordings,
            current_recording: match &self.current_recording {
                Some(s) => Some(s.clone()),
                None => None,
            },
            current_step: self.current_step.clone(),
            total_size_bytes: self.total_size_bytes,
            processed_size_bytes: self.processed_size_bytes,
        }
    }
}

/// A recording found by the directory walk.
pub struct ScannedFile {
    /// Full path of the file.
    pub path: String,
    /// File name, the key of the catalog.
    pub name: String,
    /// Extension, as stored with the slice.
    pub extension: String,
    /// Size in bytes as listed.
    pub size: u64,
}

impl ScannedFile {
    /// A field-for-field copy.
    pub fn duplicate(&self) -> (r: ScannedFile)
        ensures
            r == *self,
    {
        ScannedFile {
            path: self.path.clone(),
            name: self.name.clone(),
            extension: self.extension.clone(),
            size: self.size,
        }
    }
}

/// One entry produced by walking the voice memo directory.
pub enum WalkEntry {
    Directory,
    File(ScannedFile),
    /// Neither a file nor a directory.
    Other,
    /// An entry that could not be read.
    AccessError,
}

/// What a scan found.
pub struct ScanResult {
    pub files: Vec<ScannedFile>,
    pub directories_scanned: u32,
    pub access_errors: u32,
}

/// The audio files among the walked entries, in walk order.
pub open spec fn audio_files(entries: Seq<WalkEntry>) -> Seq<ScannedFile>
    decreases entries.len(),
{
    if entries.len() == 0 {
        Seq::empty()
    } else {
        let rest = audio_files(entries.drop_last());
        match entries.last() {
            WalkEntry::File(f) => if is_audio_name(f.name@) {
                rest.push(f)
            } else {
                rest
            },
            _ => rest,
        }
    }
}

/// How many walked entries are directories.
pub open spec fn directory_count(entries: Seq<WalkEntry>) -> int
    decreases entries.len(),
{
    if entries.len() == 0 {
        0
    } else {
        directory_count(entries.drop_last()) + if entries.last() is Directory {
            1int
        } else {
            0int
        }
    }
}

/// How many walked entries could not be read.
pub open spec fn access_error_count(entries: Seq<WalkEntry>) -> int
    decreases entries.len(),
{
    if entries.len() == 0 {
        0
    } else {
        access_error_count(entries.drop_last()) + if entries.last() is AccessError {
            1int
        } else {
            0int
        }
    }
}

/// Picks the recordings out of a directory walk, counting directories and
/// unreadable entries (which do not stop the scan).
pub fn scan_m4a_files(entries: &Vec<WalkEntry>) -> (r: ScanResult)
    ensures
        r.files@ == audio_files(entries@),
        r.directories_scanned == cap32(directory_count(entries@)),
        r.access_errors == cap32(access_error_count(entries@)),
{
    let mut files: Vec<ScannedFile> = Vec::new();
    let mut directories_scanned: u32 = 0;
    let mut access_errors: u32 = 0;
    let mut i: usize = 0;
    while i < entries.len()
        invariant
            i <= entries@.len(),
            files@ == audio_files(entries@.subrange(0, i as int)),
            directories_scanned == cap32(directory_count(entries@.subrange(0, i as int))),
            access_errors == cap32(access_error_count(entries@.subrange(0, i as int))),
            directory_count(entries@.subrange(0, i as int)) >= 0,
            access_error_count(entries@.subrange(0, i as int)) >= 0,
        decreases entries@.len() - i,
    {
        proof {
            assert(entries@.subrange(0, i as int + 1).drop_last() =~= entries@.subrange(0, i as int));
        }
        match &entries[i] {
            WalkEntry::Directory => {
                if directories_scanned < u32::MAX {
                    directories_scanned = directories_scanned + 1;
                }
            },
            WalkEntry::File(f) => {
                if has_audio_extension(f.name.as_str()) {
                    files.push(f.duplicate());
                }
            },
            WalkEntry::Other => {},
            WalkEntry::AccessError => {
                if access_errors < u32::MAX {
                    access_errors = access_errors + 1;
                }
            },
        }
        i += 1;
    }
    proof {
        assert(entries@.subrange(0, entries@.len() as int) =~= entries@);
    }
    ScanResult { files, directories_scanned, access_errors }
}

/// What the caller saw when it copied a recording into managed storage.
pub enum CopyReport {
    Copied {
        /// Bytes the copy reported.
        bytes: u64,
        /// Size of the destination file afterwards, if it exists.
        destination_bytes: Option<u64>,
        /// Duration probed from the copy, if the probe succeeded.
        duration_ms: Option<u64>,
    },
    Failed,
    /// No copy was made: `needs_copy` said none was needed.
    NotCopied,
}

/// What became of one recording.
#[derive(PartialEq, Eq, Structural, Clone, Copy, Debug)]
pub enum ProcessResult {
    Copied(u64),
    Skipped,
}

/// Why a recording, or a whole run, failed.
#[derive(PartialEq, Eq, Structural, Clone, Copy, Debug)]
pub enum MigrationError {
    /// The copy failed.
    CopyFailed,
    /// The copy reported success but the destination is missing or of another size.
    CopyNotVerified,
    /// The catalog refused the record.
    Catalog(CatalogError),
    /// The recordings index file is there but could not be read.
    IndexUnreadable,
    /// Listing the voice memo directory was refused.
    SourcePermissionDenied,
    /// The voice memo directory does not exist.
    SourceNotFound,
}

/// How the recordings index file could be reached. The file is optional:
/// without it recordings simply get no recording date.
#[derive(PartialEq, Eq, Structural, Clone, Copy, Debug)]
pub enum IndexAccess {
    Readable,
    Absent,
    /// It is there but reading it failed.
    Unreadable,
}

/// How the voice memo directory could be reached.
#[derive(PartialEq, Eq, Structural, Clone, Copy, Debug)]
pub enum SourceAccess {
    Listable,
    PermissionDenied,
    Missing,
}

/// The record made for a newly copied recording.
pub open spec fn migrated_slice(
    file: ScannedFile,
    bytes: u64,
    duration_ms: Option<u64>,
    date: Option<i64>,
) -> Slice {
    Slice {
        id: None,
        original_audio_file_name: file.name,
        title: None,
        transcribed: false,
        audio_file_size: bytes,
        audio_file_type: file.extension,
        estimated_time_to_transcribe: estimate_of(bytes, duration_ms) as i32,
        audio_time_length_ms: duration_ms,
        transcription: None,
        transcription_time_taken: None,
        transcription_word_count: None,
        transcription_model: None,
        recording_date: date,
    }
}

/// The outcome of processing `file` against a catalog with slices `v` and
/// next id `next_id`.
pub open spec fn step_result(
    v: Seq<Slice>,
    next_id: int,
    file: ScannedFile,
    report: CopyReport,
) -> Result<ProcessResult, MigrationError> {
    if has_name(v, file.name@) {
        Ok(ProcessResult::Skipped)
    } else {
        match report {
            CopyReport::Failed | CopyReport::NotCopied => Err(MigrationError::CopyFailed),
            CopyReport::Copied { bytes, destination_bytes, duration_ms } => {
                if destination_bytes != Some(bytes) {
                    Err(MigrationError::CopyNotVerified)
                } else if next_id >= i64::MAX {
                    Err(MigrationError::Catalog(CatalogError::IdsExhausted))
                } else {
                    Ok(ProcessResult::Copied(bytes))
                }
            },
        }
    }
}

/// The catalog's slices after processing `file`.
pub open spec fn step_view(
    v: Seq<Slice>,
    next_id: int,
    index: Seq<RecordingIndexEntry>,
    file: ScannedFile,
    report: CopyReport,
) -> Seq<Slice> {
    match (step_result(v, next_id, file, report), report) {
        (Ok(ProcessResult::Copied(_)), CopyReport::Copied { bytes, duration_ms, .. }) => v.push(
            Slice {
                id: Some(next_id as i64),
                ..migrated_slice(file, bytes, duration_ms, date_for_name(index, file.name@))
            },
        ),
        _ => v,
    }
}

/// The catalog's next id after processing `file`.
pub open spec fn step_next_id(v: Seq<Slice>, next_id: int, file: ScannedFile, report: CopyReport) -> int {
    match step_result(v, next_id, file, report) {
        Ok(ProcessResult::Copied(_)) => next_id + 1,
        _ => next_id,
    }
}

/// Slices and next id after processing each `(file, report)` pair in order.
pub open spec fn run_catalog(
    v: Seq<Slice>,
    next_id: int,
    index: Seq<RecordingIndexEntry>,
    steps: Seq<(ScannedFile, CopyReport)>,
) -> (Seq<Slice>, int)
    decreases steps.len(),
{
    if steps.len() == 0 {
        (v, next_id)
    } else {
        let (pv, pn) = run_catalog(v, next_id, index, steps.drop_last());
        let (f, c) = steps.last();
        (step_view(pv, pn, index, f, c), step_next_id(pv, pn, f, c))
    }
}

/// Migrating again files that are all cataloged already changes nothing:
/// each file is skipped, nothing is inserted, whatever the copies would
/// have reported.
pub proof fn lemma_migration_idempotent(
    v: Seq<Slice>,
    next_id: int,
    index: Seq<RecordingIndexEntry>,
    steps: Seq<(ScannedFile, CopyReport)>,
)
    requires
        forall|k: int| 0 <= k < steps.len() ==> has_name(v, (#[trigger] steps[k]).0.name@),
    ensures
        run_catalog(v, next_id, index, steps) == (v, next_id),
        forall|k: int|
            0 <= k < steps.len() ==> step_result(v, next_id, (#[trigger] steps[k]).0, steps[k].1)
                == Ok::<ProcessResult, MigrationError>(ProcessResult::Skipped),
    decreases steps.len(),
{
    if steps.len() > 0 {
        let prefix = steps.drop_last();
        assert forall|k: int| 0 <= k < prefix.len() implies has_name(v, (#[trigger] prefix[k]).0.name@) by {
            assert(prefix[k] == steps[k]);
        }
        lemma_migration_idempotent(v, next_id, index, prefix);
        assert(has_name(v, steps[steps.len() - 1].0.name@));
    }
}

/// A copy the caller saw succeed and verified.
pub open spec fn verified_copy(report: CopyReport) -> bool {
    match report {
        CopyReport::Copied { bytes, destination_bytes, .. } => destination_bytes == Some(bytes),
        CopyReport::Failed | CopyReport::NotCopied => false,
    }
}

/// A run whose copies all succeed catalogs every file it was given, as long
/// as ids last.
pub proof fn lemma_run_catalogs_every_file(
    v: Seq<Slice>,
    next_id: int,
    index: Seq<RecordingIndexEntry>,
    steps: Seq<(ScannedFile, CopyReport)>,
)
    requires
        forall|k: int| 0 <= k < steps.len() ==> verified_copy((#[trigger] steps[k]).1),
        next_id + steps.len() < i64::MAX,
    ensures
        forall|k: int|
            0 <= k < steps.len() ==> has_name(run_catalog(v, next_id, index, steps).0, (#[trigger] steps[k]).0.name@),
        forall|name: Seq<char>| has_name(v, name) ==> has_name(run_catalog(v, next_id, index, steps).0, name),
        next_id <= run_catalog(v, next_id, index, steps).1 <= next_id + steps.len(),
    decreases steps.len(),
{
    if steps.len() > 0 {
        let prefix = steps.drop_last();
        assert forall|k: int| 0 <= k < prefix.len() implies verified_copy((#[trigger] prefix[k]).1) by {
            assert(prefix[k] == steps[k]);
        }
        lemma_run_catalogs_every_file(v, next_id, index, prefix);
        let (pv, pn) = run_catalog(v, next_id, index, prefix);
        let (f, c) = steps.last();
        let nv = step_view(pv, pn, index, f, c);
        assert forall|name: Seq<char>| has_name(pv, name) implies has_name(nv, name) by {
            let i = choose|i: int| 0 <= i < pv.len() && #[trigger] name_of(pv[i]) == name;
            assert(nv[i] == pv[i]);
        }
        assert forall|k: int| 0 <= k < steps.len() implies has_name(nv, (#[trigger] steps[k]).0.name@) by {
            if k < prefix.len() {
                assert(prefix[k] == steps[k]);
            } else if !has_name(pv, f.name@) {
                assert(nv[nv.len() - 1].original_audio_file_name == f.name);
                assert(name_of(nv[nv.len() - 1]) == f.name@);
            }
        }
        assert forall|name: Seq<char>| has_name(v, name) implies has_name(nv, name) by {
            assert(has_name(pv, name));
        }
    }
}

/// Every file of the run had an `Ok` outcome (copied or skipped), no error.
pub open spec fn run_error_free(
    v: Seq<Slice>,
    next_id: int,
    index: Seq<RecordingIndexEntry>,
    steps: Seq<(ScannedFile, CopyReport)>,
) -> bool
    decreases steps.len(),
{
    if steps.len() == 0 {
        true
    } else {
        let (pv, pn) = run_catalog(v, next_id, index, steps.drop_last());
        &&& run_error_free(v, next_id, index, steps.drop_last())
        &&& step_result(pv, pn, steps.last().0, steps.last().1) is Ok
    }
}

/// After a run with no errors, every file it was given is cataloged, and
/// so is every name cataloged before.
pub proof fn lemma_error_free_run_catalogs_every_file(
    v: Seq<Slice>,
    next_id: int,
    index: Seq<RecordingIndexEntry>,
    steps: Seq<(ScannedFile, CopyReport)>,
)
    requires
        run_error_free(v, next_id, index, steps),
    ensures
        forall|k: int|
            0 <= k < steps.len() ==> has_name(run_catalog(v, next_id, index, steps).0, (#[trigger] steps[k]).0.name@),
        forall|name: Seq<char>| has_name(v, name) ==> has_name(run_catalog(v, next_id, index, steps).0, name),
    decreases steps.len(),
{
    if steps.len() > 0 {
        let prefix = steps.drop_last();
        lemma_error_free_run_catalogs_every_file(v, next_id, index, prefix);
        let (pv, pn) = run_catalog(v, next_id, index, prefix);
        let (f, c) = steps.last();
        let nv = step_view(pv, pn, index, f, c);
        assert forall|name: Seq<char>| has_name(pv, name) implies has_name(nv, name) by {
            let i = choose|i: int| 0 <= i < pv.len() && #[trigger] name_of(pv[i]) == name;
            assert(nv[i] == pv[i]);
        }
        assert forall|k: int| 0 <= k < steps.len() implies has_name(nv, (#[trigger] steps[k]).0.name@) by {
            if k < prefix.len() {
                assert(prefix[k] == steps[k]);
            } else if !has_name(pv, f.name@) {
                assert(nv[nv.len() - 1].original_audio_file_name == f.name);
                assert(name_of(nv[nv.len() - 1]) == f.name@);
            }
        }
        assert forall|name: Seq<char>| has_name(v, name) implies has_name(nv, name) by {
            assert(has_name(pv, name));
        }
    }
}

/// Migrating the same files twice: when the first run ends with no errors,
/// the second run skips every file (nothing is copied or inserted) and
/// leaves the catalog as the first run left it, whatever its copies would
/// report.
pub proof fn lemma_migration_twice(
    v: Seq<Slice>,
    next_id: int,
    index: Seq<RecordingIndexEntry>,
    first: Seq<(ScannedFile, CopyReport)>,
    second: Seq<(ScannedFile, CopyReport)>,
)
    requires
        run_error_free(v, next_id, index, first),
        second.len() == first.len(),
        forall|k: int| 0 <= k < second.len() ==> (#[trigger] second[k]).0 == first[k].0,
    ensures
        ({
            let after = run_catalog(v, next_id, index, first);
            &&& run_catalog(after.0, after.1, index, second) == after
            &&& forall|k: int|
                0 <= k < second.len() ==> step_result(after.0, after.1, (#[trigger] second[k]).0, second[k].1)
                    == Ok::<ProcessResult, MigrationError>(ProcessResult::Skipped)
        }),
{
    lemma_error_free_run_catalogs_every_file(v, next_id, index, first);
    let after = run_catalog(v, next_id, index, first);
    assert forall|k: int| 0 <= k < second.len() implies has_name(after.0, (#[trigger] second[k]).0.name@) by {
        assert(second[k].0 == first[k].0);
        assert(has_name(after.0, first[k].0.name@));
    }
    lemma_migration_idempotent(after.0, after.1, index, second);
}

/// The snapshot right after a run starts.
pub open spec fn started_progress(p: MigrationProgress) -> bool {
    &&& p.total_recordings == 0
    &&& p.processed_recordings == 0
    &&& p.failed_recordings == 0
    &&& p.current_recording is None
    &&& p.current_step@ == "Initializing..."@
    &&& p.total_size_bytes == 0
    &&& p.processed_size_bytes == 0
}

/// Sum of the listed sizes.
pub open spec fn listed_bytes(files: Seq<ScannedFile>) -> int
    decreases files.len(),
{
    if files.len() == 0 {
        0
    } else {
        listed_bytes(files.drop_last()) + files.last().size
    }
}

pub open spec fn saturated(x: int) -> int {
    if x > u64::MAX {
        u64::MAX as int
    } else {
        x
    }
}

pub open spec fn bump(x: u32) -> u32 {
    if x < u32::MAX {
        (x + 1) as u32
    } else {
        x
    }
}

/// The summary after one more outcome.
pub open spec fn summary_after(s: MigrationSummary, outcome: Result<ProcessResult, MigrationError>) -> MigrationSummary {
    match outcome {
        Ok(ProcessResult::Copied(_)) => MigrationSummary { copied: bump(s.copied), ..s },
        Ok(ProcessResult::Skipped) => MigrationSummary { skipped: bump(s.skipped), ..s },
        Err(_) => MigrationSummary { errors: bump(s.errors), ..s },
    }
}

/// The snapshot after one more recording had `outcome`.
pub open spec fn progress_after(
    p: MigrationProgress,
    outcome: Result<ProcessResult, MigrationError>,
) -> MigrationProgress {
    match outcome {
        Ok(ProcessResult::Copied(size)) => MigrationProgress {
            processed_recordings: bump(p.processed_recordings),
            processed_size_bytes: saturated(p.processed_size_bytes + size) as u64,
            ..p
        },
        Ok(ProcessResult::Skipped) => MigrationProgress {
            processed_recordings: bump(p.processed_recordings),
            ..p
        },
        Err(_) => MigrationProgress {
            processed_recordings: bump(p.processed_recordings),
            failed_recordings: bump(p.failed_recordings),
            ..p
        },
    }
}

/// Runs a migration: tracks its summary and its progress snapshot, and
/// decides what happens to each recording.
pub struct MigrationEngine {
    config: Config,
    progress: Option<MigrationProgress>,
    summary: MigrationSummary,
}

impl MigrationEngine {
    /// The snapshot observers see; `None` when no run is active.
    pub closed spec fn progress(&self) -> Option<MigrationProgress> {
        self.progress
    }

    /// The settings the engine runs with.
    pub closed spec fn configuration(&self) -> Config {
        self.config
    }

    /// The settings the engine runs with.
    pub fn config(&self) -> (r: &Config)
        ensures
            *r == self.configuration(),
    {
        &self.config
    }

    /// The counts of the current run.
    pub closed spec fn summary(&self) -> MigrationSummary {
        self.summary
    }

    /// An engine with no run active.
    pub fn new(config: Config) -> (r: MigrationEngine)
        ensures
            r.progress() is None,
            r.configuration() == config,
            r.summary() == (MigrationSummary { copied: 0, skipped: 0, errors: 0, total_size_bytes: 0 }),
    {
        MigrationEngine {
            config,
            progress: None,
            summary: MigrationSummary { copied: 0, skipped: 0, errors: 0, total_size_bytes: 0 },
        }
    }

    /// A copy of the snapshot.
    pub fn get_migration_progress(&self) -> (r: Option<MigrationProgress>)
        ensures
            r == self.progress(),
    {
        match &self.progress {
            Some(p) => Some(p.duplicate()),
            None => None,
        }
    }

    /// The snapshot itself.
    pub fn get_migration_progress_ref(&self) -> (r: &Option<MigrationProgress>)
        ensures
            *r == self.progress(),
    {
        &self.progress
    }

    /// A copy of the counts of the current run.
    pub fn get_summary(&self) -> (r: MigrationSummary)
        ensures
            r == self.summary(),
    {
        MigrationSummary {
            copied: self.summary.copied,
            skipped: self.summary.skipped,
            errors: self.summary.errors,
            total_size_bytes: self.summary.total_size_bytes,
        }
    }

    /// Starts a run: zero counts and a fresh snapshot with no total yet.
    pub fn begin(&mut self)
        ensures
            final(self).progress() matches Some(p) && started_progress(p),
            final(self).summary() == (MigrationSummary { copied: 0, skipped: 0, errors: 0, total_size_bytes: 0 }),
            final(self).configuration() == old(self).configuration(),
    {
        self.progress = Some(
            MigrationProgress {
                total_recordings: 0,
                processed_recordings: 0,
                failed_recordings: 0,
                current_recording: None,
                current_step: String::from_str("Initializing..."),
                total_size_bytes: 0,
                processed_size_bytes: 0,
            },
        );
        self.summary = MigrationSummary { copied: 0, skipped: 0, errors: 0, total_size_bytes: 0 };
    }

    /// Sets the step text and, when given, the totals of an active snapshot.
    pub fn update_progress(&mut self, step: &str, total: Option<u32>, total_size: Option<u64>)
        ensures
            final(self).summary() == old(self).summary(),
            final(self).configuration() == old(self).configuration(),
            old(self).progress() is None ==> final(self).progress() is None,
            old(self).progress() matches Some(p) ==> final(self).progress() matches Some(q) && q
                == (MigrationProgress {
                current_step: q.current_step,
                total_recordings: match total {
                    Some(t) => t,
                    None => p.total_recordings,
                },
                total_size_bytes: match total_size {
                    Some(s) => s,
                    None => p.total_size_bytes,
                },
                ..p
            }) && q.current_step@ == step@,
    {
        match &mut self.progress {
            Some(p) => {
                p.current_step = String::from_str(step);
                match total {
                    Some(t) => {
                        p.total_recordings = t;
                    },
                    None => {},
                }
                match total_size {
                    Some(s) => {
                        p.total_size_bytes = s;
                    },
                    None => {},
                }
            },
            None => {},
        }
    }

    /// Checks that the run can go on: the voice memo directory must be
    /// listable, and the recordings index file, which is optional, must be
    /// readable where it is there. Otherwise the run ends with the matching
    /// error (the directory decided first) and the snapshot is cleared.
    pub fn check_sources(&mut self, source: SourceAccess, index: IndexAccess) -> (r: Result<
        (),
        MigrationError,
    >)
        ensures
            r is Ok <==> (source == SourceAccess::Listable && index != IndexAccess::Unreadable),
            source == SourceAccess::PermissionDenied ==> r == Err::<(), MigrationError>(
                MigrationError::SourcePermissionDenied,
            ),
            source == SourceAccess::Missing ==> r == Err::<(), MigrationError>(
                MigrationError::SourceNotFound,
            ),
            source == SourceAccess::Listable && index == IndexAccess::Unreadable ==> r == Err::<
                (),
                MigrationError,
            >(MigrationError::IndexUnreadable),
            r is Ok ==> final(self).progress() == old(self).progress(),
            r is Err ==> final(self).progress() is None,
            final(self).summary() == old(self).summary(),
            final(self).configuration() == old(self).configuration(),
    {
        match source {
            SourceAccess::Listable => {},
            SourceAccess::PermissionDenied => {
                self.abort();
                return Err(MigrationError::SourcePermissionDenied);
            },
            SourceAccess::Missing => {
                self.abort();
                return Err(MigrationError::SourceNotFound);
            },
        }
        match index {
            IndexAccess::Unreadable => {
                self.abort();
                Err(MigrationError::IndexUnreadable)
            },
            _ => Ok(()),
        }
    }

    /// Whether `file` must be copied: only where the catalog has no slice of
    /// its name. A cataloged file is never copied again.
    pub fn needs_copy(&self, catalog: &Catalog, file: &ScannedFile) -> (r: bool)
        ensures
            r == !has_name(catalog@, file.name@),
    {
        !catalog.slice_exists(file.name.as_str())
    }

    /// Records what the scan found: the number of recordings and their
    /// total size (held at the largest `u64`). Returns that size.
    pub fn set_scan_result(&mut self, files: &Vec<ScannedFile>) -> (r: u64)
        requires
            files@.len() <= u32::MAX,
        ensures
            r as int == saturated(listed_bytes(files@)),
            final(self).summary() == (MigrationSummary { total_size_bytes: r, ..old(self).summary() }),
            final(self).configuration() == old(self).configuration(),
            old(self).progress() is None ==> final(self).progress() is None,
            old(self).progress() matches Some(p) ==> final(self).progress() matches Some(q) && q
                == (MigrationProgress {
                current_step: q.current_step,
                total_recordings: files@.len() as u32,
                total_size_bytes: r,
                ..p
            }),
    {
        let mut total: u64 = 0;
        let mut i: usize = 0;
        while i < files.len()
            invariant
                i <= files@.len(),
                total as int == saturated(listed_bytes(files@.subrange(0, i as int))),
            decreases files@.len() - i,
        {
            proof {
                assert(files@.subrange(0, i as int + 1).drop_last() =~= files@.subrange(0, i as int));
                assert(listed_bytes(files@.subrange(0, i as int)) >= 0) by {
                    lemma_listed_bytes_nonneg(files@.subrange(0, i as int));
                }
            }
            let size = files[i].size;
            if total > u64::MAX - size {
                total = u64::MAX;
            } else {
                total = total + size;
            }
            i += 1;
        }
        proof {
            assert(files@.subrange(0, files@.len() as int) =~= files@);
        }
        self.update_progress("Starting file migration...", Some(files.len() as u32), Some(total));
        self.summary.total_size_bytes = total;
        total
    }

    /// Processes one recording. A recording whose name is cataloged is
    /// skipped; otherwise `report` says how its copy went, and a verified
    /// copy is cataloged with its size, duration, estimate and the recording
    /// date the index holds for its name.
    pub fn process_m4a_file(
        &self,
        catalog: &mut Catalog,
        index: &RecordingIndex,
        file: &ScannedFile,
        report: &CopyReport,
    ) -> (r: Result<ProcessResult, MigrationError>)
        requires
            old(catalog).wf(),
        ensures
            final(catalog).wf(),
            r == step_result(old(catalog)@, old(catalog).next_id(), *file, *report),
            final(catalog)@ == step_view(
                old(catalog)@,
                old(catalog).next_id(),
                index.entries@,
                *file,
                *report,
            ),
            final(catalog).next_id() == step_next_id(
                old(catalog)@,
                old(catalog).next_id(),
                *file,
                *report,
            ),
    {
        if catalog.slice_exists(file.name.as_str()) {
            return Ok(ProcessResult::Skipped);
        }
        match report {
            CopyReport::Failed | CopyReport::NotCopied => Err(MigrationError::CopyFailed),
            CopyReport::Copied { bytes, destination_bytes, duration_ms } => {
                let verified = match destination_bytes {
                    Some(d) => *d == *bytes,
                    None => false,
                };
                if !verified {
                    return Err(MigrationError::CopyNotVerified);
                }
                let date = index.get_recording_date_for_filename(file.name.as_str());
                let slice = Slice {
                    id: None,
                    original_audio_file_name: file.name.clone(),
                    title: None,
                    transcribed: false,
                    audio_file_size: *bytes,
                    audio_file_type: file.extension.clone(),
                    estimated_time_to_transcribe: estimate_transcription_time(*bytes, *duration_ms),
                    audio_time_length_ms: *duration_ms,
                    transcription: None,
                    transcription_time_taken: None,
                    transcription_word_count: None,
                    transcription_model: None,
                    recording_date: date,
                };
                assert(slice == migrated_slice(*file, *bytes, *duration_ms, date));
                assert(valid_slice(slice));
                proof {
                    catalog.lemma_wf_view();
                }
                match catalog.insert_slice(slice) {
                    Ok(_) => Ok(ProcessResult::Copied(*bytes)),
                    Err(e) => Err(MigrationError::Catalog(e)),
                }
            },
        }
    }

    /// Counts the outcome of one more recording in the summary and the
    /// snapshot.
    pub fn record_outcome(&mut self, outcome: &Result<ProcessResult, MigrationError>)
        ensures
            final(self).summary() == summary_after(old(self).summary(), *outcome),
            final(self).configuration() == old(self).configuration(),
            old(self).progress() is None ==> final(self).progress() is None,
            old(self).progress() matches Some(p) ==> final(self).progress() == Some(
                progress_after(p, *outcome),
            ),
    {
        match outcome {
            Ok(ProcessResult::Copied(size)) => {
                if self.summary.copied < u32::MAX {
                    self.summary.copied = self.summary.copied + 1;
                }
                match &mut self.progress {
                    Some(p) => {
                        if p.processed_recordings < u32::MAX {
                            p.processed_recordings = p.processed_recordings + 1;
                        }
                        if p.processed_size_bytes > u64::MAX - *size {
                            p.processed_size_bytes = u64::MAX;
                        } else {
                            p.processed_size_bytes = p.processed_size_bytes + *size;
                        }
                    },
                    None => {},
                }
            },
            Ok(ProcessResult::Skipped) => {
                if self.summary.skipped < u32::MAX {
                    self.summary.skipped = self.summary.skipped + 1;
                }
                match &mut self.progress {
                    Some(p) => {
                        if p.processed_recordings < u32::MAX {
                            p.processed_recordings = p.processed_recordings + 1;
                        }
                    },
                    None => {},
                }
            },
            Err(_) => {
                if self.summary.errors < u32::MAX {
                    self.summary.errors = self.summary.errors + 1;
                }
                match &mut self.progress {
                    Some(p) => {
                        if p.processed_recordings < u32::MAX {
                            p.processed_recordings = p.processed_recordings + 1;
                        }
                        if p.failed_recordings < u32::MAX {
                            p.failed_recordings = p.failed_recordings + 1;
                        }
                    },
                    None => {},
                }
            },
        }
    }

    /// Ends a run that failed as a whole: the snapshot is cleared.
    pub fn abort(&mut self)
        ensures
            final(self).progress() is None,
            final(self).summary() == old(self).summary(),
            final(self).configuration() == old(self).configuration(),
    {
        self.progress = None;
    }

    /// Ends a run: the snapshot is cleared and the counts returned.
    pub fn finish(&mut self) -> (r: MigrationSummary)
        ensures
            final(self).progress() is None,
            r == old(self).summary(),
            final(self).summary() == old(self).summary(),
            final(self).configuration() == old(self).configuration(),
    {
        self.abort();
        self.get_summary()
    }
}

proof fn lemma_listed_bytes_nonneg(files: Seq<ScannedFile>)
    ensures
        listed_bytes(files) >= 0,
    decreases files.len(),
{
    if files.len() > 0 {
        lemma_listed_bytes_nonneg(files.drop_last());
    }
}

/// The snapshot after the recordings had `outcomes`, in order.
pub open spec fn progress_after_all(
    p: MigrationProgress,
    outcomes: Seq<Result<ProcessResult, MigrationError>>,
) -> MigrationProgress
    decreases outcomes.len(),
{
    if outcomes.len() == 0 {
        p
    } else {
        progress_after(progress_after_all(p, outcomes.drop_last()), outcomes.last())
    }
}

/// The snapshot through a run: a total of zero right after the run starts,
/// the scanned count and size once the scan is in, and that total kept
/// through every per-recording update, while the processed and failed
/// counts never decrease; after `k` of the `count` recordings, `k` are
/// processed and at most `k` failed. (Before the run and after it ends,
/// successfully or not, there is no snapshot: see `new`, `check_sources`,
/// `abort` and `finish`.)
pub proof fn lemma_progress_lifecycle(
    p: MigrationProgress,
    count: u32,
    size: u64,
    step: String,
    outcomes: Seq<Result<ProcessResult, MigrationError>>,
)
    requires
        started_progress(p),
        outcomes.len() <= count,
    ensures
        p.total_recordings == 0,
        forall|q: MigrationProgress, o: Result<ProcessResult, MigrationError>|
            #![trigger progress_after(q, o)]
            progress_after(q, o).total_recordings == q.total_recordings
                && progress_after(q, o).total_size_bytes == q.total_size_bytes
                && progress_after(q, o).processed_recordings >= q.processed_recordings
                && progress_after(q, o).failed_recordings >= q.failed_recordings,
        ({
            let scanned = MigrationProgress {
                current_step: step,
                total_recordings: count,
                total_size_bytes: size,
                ..p
            };
            &&& progress_after_all(scanned, outcomes).total_recordings == count
            &&& progress_after_all(scanned, outcomes).total_size_bytes == size
            &&& progress_after_all(scanned, outcomes).processed_recordings == outcomes.len()
            &&& progress_after_all(scanned, outcomes).failed_recordings <= outcomes.len()
        }),
    decreases outcomes.len(),
{
    if outcomes.len() > 0 {
        lemma_progress_lifecycle(p, count, size, step, outcomes.drop_last());
    }
}

/// What chrono writes for a Unix timestamp in the form `%Y-%m-%d %H:%M:%S`
/// (UTC), or nothing where it cannot represent the instant.
pub uninterp spec fn utc_timestamp_text(secs: i64) -> Option<Seq<char>>;

/// Relies on chrono's `DateTime::from_timestamp` (seconds, no nanoseconds;
/// `None` out of its range) and `format("%Y-%m-%d %H:%M:%S")`; the text
/// depends on the timestamp alone.
#[verifier::external_body]
fn format_timestamp(secs: i64) -> (r: Option<String>)
    ensures
        match utc_timestamp_text(secs) {
            Some(t) => r is Some && r.unwrap()@ == t,
            None => r is None,
        },
{
    match chrono::DateTime::from_timestamp(secs, 0) {
        Some(dt) => Some(dt.format("%Y-%m-%d %H:%M:%S").to_string()),
        None => None,
    }
}

/// The largest of `times`.
pub open spec fn latest_of(times: Seq<i64>) -> Option<i64>
    decreases times.len(),
{
    if times.len() == 0 {
        None
    } else {
        match latest_of(times.drop_last()) {
            Some(t) => Some(if times.last() > t { times.last() } else { t }),
            None => Some(times.last()),
        }
    }
}

/// The most recent of a set of modification times.
pub fn latest(times: &Vec<i64>) -> (r: Option<i64>)
    ensures
        r == latest_of(times@),
{
    let mut best: Option<i64> = None;
    let mut i: usize = 0;
    while i < times.len()
        invariant
            i <= times@.len(),
            best == latest_of(times@.subrange(0, i as int)),
        decreases times@.len() - i,
    {
        proof {
            assert(times@.subrange(0, i as int + 1).drop_last() =~= times@.subrange(0, i as int));
        }
        let t = times[i];
        best = match best {
            Some(b) => Some(if t > b { t } else { b }),
            None => Some(t),
        };
        i += 1;
    }
    assert(times@.subrange(0, times@.len() as int) =~= times@);
    best
}

/// The counts shown before a migration.
pub struct PreMigrationStats {
    pub origin_total_files: u32,
    pub origin_total_size_bytes: u64,
    pub origin_most_recent_date: Option<String>,
    pub destination_total_files: u32,
    pub destination_most_recent_date: Option<String>,
    pub files_to_migrate: u32,
    pub transcribed_count: u32,
    pub not_transcribed_count: u32,
}

/// `x` held to `u32`.
pub open spec fn cap32(x: int) -> u32 {
    if x > u32::MAX {
        u32::MAX
    } else {
        x as u32
    }
}

/// How many of `files` are not cataloged in `v`.
pub open spec fn new_file_count(files: Seq<ScannedFile>, v: Seq<Slice>) -> int
    decreases files.len(),
{
    if files.len() == 0 {
        0
    } else {
        new_file_count(files.drop_last(), v) + if has_name(v, files.last().name@) {
            0int
        } else {
            1int
        }
    }
}

/// How many slices of `v` are transcribed.
pub open spec fn transcribed_count(v: Seq<Slice>) -> int
    decreases v.len(),
{
    if v.len() == 0 {
        0
    } else {
        transcribed_count(v.drop_last()) + if v.last().transcribed {
            1int
        } else {
            0int
        }
    }
}

fn cap_u32(x: u64) -> (c: u32)
    ensures
        c == cap32(x as int),
{
    if x > u32::MAX as u64 {
        u32::MAX
    } else {
        x as u32
    }
}

/// Counts what a migration would find: the recordings in the voice memo
/// directory and their size, how many are not cataloged yet, the catalog's
/// size and transcription counts, and the most recent modification times
/// (Unix seconds) of the source and of managed storage, as text.
pub fn pre_migration_stats(
    origin_files: &Vec<ScannedFile>,
    origin_latest_modified: Option<i64>,
    catalog: &Catalog,
    destination_latest_modified: Option<i64>,
) -> (r: PreMigrationStats)
    ensures
        r.origin_total_files == cap32(origin_files@.len() as int),
        r.origin_total_size_bytes as int == saturated(listed_bytes(origin_files@)),
        r.files_to_migrate == cap32(new_file_count(origin_files@, catalog@)),
        r.destination_total_files == cap32(catalog@.len() as int),
        r.transcribed_count == cap32(transcribed_count(catalog@)),
        r.not_transcribed_count == cap32(catalog@.len() - transcribed_count(catalog@)),
        match origin_latest_modified {
            Some(t) => match utc_timestamp_text(t) {
                Some(x) => r.origin_most_recent_date is Some && r.origin_most_recent_date.unwrap()@ == x,
                None => r.origin_most_recent_date is None,
            },
            None => r.origin_most_recent_date is None,
        },
        match destination_latest_modified {
            Some(t) => match utc_timestamp_text(t) {
                Some(x) => r.destination_most_recent_date is Some && r.destination_most_recent_date.unwrap()@
                    == x,
                None => r.destination_most_recent_date is None,
            },
            None => r.destination_most_recent_date is None,
        },
{
    let mut size: u64 = 0;
    let mut fresh: u64 = 0;
    let mut i: usize = 0;
    while i < origin_files.len()
        invariant
            i <= origin_files@.len(),
            size as int == saturated(listed_bytes(origin_files@.subrange(0, i as int))),
            fresh as int == new_file_count(origin_files@.subrange(0, i as int), catalog@),
            fresh <= i,
        decreases origin_files@.len() - i,
    {
        proof {
            assert(origin_files@.subrange(0, i as int + 1).drop_last() =~= origin_files@.subrange(0, i as int));
            lemma_listed_bytes_nonneg(origin_files@.subrange(0, i as int));
        }
        let f = &origin_files[i];
        if size > u64::MAX - f.size {
            size = u64::MAX;
        } else {
            size = size + f.size;
        }
        if !catalog.slice_exists(f.name.as_str()) {
            fresh = fresh + 1;
        }
        i += 1;
    }
    assert(origin_files@.subrange(0, origin_files@.len() as int) =~= origin_files@);
    let mut transcribed: u64 = 0;
    let mut k: usize = 0;
    while k < catalog.len()
        invariant
            k <= catalog@.len(),
            transcribed as int == transcribed_count(catalog@.subrange(0, k as int)),
            transcribed <= k,
        decreases catalog@.len() - k,
    {
        proof {
            assert(catalog@.subrange(0, k as int + 1).drop_last() =~= catalog@.subrange(0, k as int));
        }
        if catalog.at(k).transcribed {
            transcribed = transcribed + 1;
        }
        k += 1;
    }
    assert(catalog@.subrange(0, catalog@.len() as int) =~= catalog@);
    let total = catalog.len() as u64;
    PreMigrationStats {
        origin_total_files: cap_u32(origin_files.len() as u64),
        origin_total_size_bytes: size,
        origin_most_recent_date: match origin_latest_modified {
            Some(t) => format_timestamp(t),
            None => None,
        },
        destination_total_files: cap_u32(total),
        destination_most_recent_date: match destination_latest_modified {
            Some(t) => format_timestamp(t),
            None => None,
        },
        files_to_migrate: cap_u32(fresh),
        transcribed_count: cap_u32(transcribed),
        not_transcribed_count: cap_u32(total - transcribed),
    }
}

/// `bytes / unit` in tenths, rounded to the nearest tenth, ties to even.
pub open spec fn tenths(bytes: int, unit: int) -> int {
    let q = (bytes * 10) / unit;
    let r = (bytes * 10) % unit;
    if 2 * r > unit || (2 * r == unit && q % 2 == 1) {
        q + 1
    } else {
        q
    }
}

/// A count of tenths written with one decimal.
pub open spec fn one_decimal(t: int) -> Seq<char> {
    decimal_text(t / 10) + "."@ + decimal_text(t % 10)
}

/// A size for people: bytes below a KiB, else KB, MB or GB with one decimal.
pub open spec fn size_text(bytes: u64) -> Seq<char> {
    if bytes < 1024 {
        decimal_text(bytes as int) + " B"@
    } else if bytes < 1_048_576 {
        one_decimal(tenths(bytes as int, 1024)) + " KB"@
    } else if bytes < 1_073_741_824 {
        one_decimal(tenths(bytes as int, 1_048_576)) + " MB"@
    } else {
        one_decimal(tenths(bytes as int, 1_073_741_824)) + " GB"@
    }
}

fn tenths_exec(bytes: u64, unit: u64) -> (r: u128)
    requires
        unit > 0,
    ensures
        r as int == tenths(bytes as int, unit as int),
{
    let x: u128 = bytes as u128 * 10;
    let q = x / unit as u128;
    let r = x % unit as u128;
    assert(q <= x);
    if 2 * r > unit as u128 || (2 * r == unit as u128 && q % 2 == 1) {
        q + 1
    } else {
        q
    }
}

fn one_decimal_exec(t: u128) -> (r: String)
    ensures
        r@ == one_decimal(t as int),
{
    let mut out = decimal_unsigned(t / 10);
    out.append(".");
    out.append(decimal_unsigned(t % 10).as_str());
    out
}

/// Formats a size in bytes for the migration log.
pub fn format_file_size(bytes: u64) -> (r: String)
    ensures
        r@ == size_text(bytes),
{
    let (t, unit_text) = if bytes < 1024 {
        let mut out = decimal_unsigned(bytes as u128);
        out.append(" B");
        return out;
    } else if bytes < 1_048_576 {
        (tenths_exec(bytes, 1024), " KB")
    } else if bytes < 1_073_741_824 {
        (tenths_exec(bytes, 1_048_576), " MB")
    } else {
        (tenths_exec(bytes, 1_073_741_824), " GB")
    };
    let mut out = one_decimal_exec(t);
    out.append(unit_text);
    out
}

/// A duration for people, from whole seconds (rounded half up):
/// `1h 2m 3s`, `2m 3s` or `3s`.
pub open spec fn duration_text(ms: u64) -> Seq<char> {
    let total = (ms as int + 500) / 1000;
    let h = total / 3600;
    let m = (total % 3600) / 60;
    let sec = total % 60;
    if h > 0 {
        decimal_text(h) + "h "@ + decimal_text(m) + "m "@ + decimal_text(sec) + "s"@
    } else if m > 0 {
        decimal_text(m) + "m "@ + decimal_text(sec) + "s"@
    } else {
        decimal_text(sec) + "s"@
    }
}

/// Formats a duration for the migration log.
pub fn format_audio_duration(ms: u64) -> (r: String)
    ensures
        r@ == duration_text(ms),
{
    let total: u128 = (ms as u128 + 500) / 1000;
    let h = total / 3600;
    let m = (total % 3600) / 60;
    let sec = total % 60;
    let mut out = String::new();
    if h > 0 {
        out.append(decimal_unsigned(h).as_str());
        out.append("h ");
    }
    if h > 0 || m > 0 {
        out.append(decimal_unsigned(m).as_str());
        out.append("m ");
    }
    out.append(decimal_unsigned(sec).as_str());
    out.append("s");
    proof {
        if h > 0 {
            assert(out@ =~= duration_text(ms));
        } else if m > 0 {
            assert(out@ =~= duration_text(ms));
        } else {
            assert(out@ =~= duration_text(ms));
        }
    }
    out
}

} // verus!
