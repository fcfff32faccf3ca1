use vstd::prelude::*;
use vstd::string::*;
use crate::catalog::{has_id, index_of_id, Catalog, CatalogError, Slice};
use crate::config::Config;
use crate::estimate::{processing_seconds, processing_seconds_spec};
use crate::text::{
    chars_of, join_words, decimal, decimal_text, ends_with, is_white_space, is_whitespace, push_char, trim_end,
    trim_start,
};

verus! {

// Transcription: the progress snapshot of a batch, the decisions around each
// slice, and the text handling of what the speech engine returns.

/// The snapshot of a transcription batch that observers poll.
pub struct TranscriptionProgress {
    pub total_slices: u32,
    pub completed_slices: u32,
    pub failed_slices: u32,
    pub current_slice_id: Option<i64>,
    pub current_slice_name: Option<String>,
    pub current_step: String,
    pub estimated_total_seconds: u32,
    pub elapsed_seconds: u32,
    pub is_active: bool,
    pub current_slice_elapsed_seconds: u32,
    pub current_slice_estimated_seconds: u32,
    pub current_slice_file_size: u64,
    /// Historical throughput, bytes of audio per second of processing.
    pub bytes_per_second_rate: u64,
}

pub open spec fn bump(x: u32) -> u32 {
    if x < u32::MAX {
        (x + 1) as u32
    } else {
        x
    }
}

/// The snapshot at the start of a batch.
pub open spec fn initial_progress(p: TranscriptionProgress, total: u32, estimated: u32, rate: u64) -> bool {
    &&& p.total_slices == total
    &&& p.completed_slices == 0
    &&& p.failed_slices == 0
    &&& p.current_slice_id is None
    &&& p.current_slice_name is None
    &&& p.current_step@ == "Initializing..."@
    &&& p.estimated_total_seconds == estimated
    &&& p.elapsed_seconds == 0
    &&& p.is_active
    &&& p.current_slice_elapsed_seconds == 0
    &&& p.current_slice_estimated_seconds == 0
    &&& p.current_slice_file_size == 0
    &&& p.bytes_per_second_rate == rate
}

/// Starts the snapshot of a batch of `total_slices` slices.
pub fn init_transcription_progress(
    cell: &mut Option<TranscriptionProgress>,
    total_slices: u32,
    estimated_total_seconds: u32,
    bytes_per_second_rate: u64,
)
    ensures
        *final(cell) matches Some(p) && initial_progress(p, total_slices, estimated_total_seconds, bytes_per_second_rate),
{
    *cell = Some(
        TranscriptionProgress {
            total_slices,
            completed_slices: 0,
            failed_slices: 0,
            current_slice_id: None,
            current_slice_name: None,
            current_step: String::from_str("Initializing..."),
            estimated_total_seconds,
            elapsed_seconds: 0,
            is_active: true,
            current_slice_elapsed_seconds: 0,
            current_slice_estimated_seconds: 0,
            current_slice_file_size: 0,
            bytes_per_second_rate,
        },
    );
}

/// Seconds expected for one slice, held to `u32`.
pub open spec fn slice_estimate(file_size: u64, duration_ms: Option<u64>) -> u32 {
    let s = processing_seconds_spec(file_size as int, duration_ms);
    if s > u32::MAX {
        u32::MAX
    } else {
        s as u32
    }
}

/// Points the snapshot at the slice now being transcribed, with the time it
/// is expected to take.
pub fn start_current_slice(
    cell: &mut Option<TranscriptionProgress>,
    slice_id: i64,
    slice_name: String,
    file_size: u64,
    audio_duration_ms: Option<u64>,
)
    ensures
        *old(cell) is None ==> *final(cell) is None,
        *old(cell) matches Some(p) ==> *final(cell) matches Some(q) && q == (TranscriptionProgress {
            current_slice_id: Some(slice_id),
            current_slice_name: Some(slice_name),
            current_slice_file_size: file_size,
            current_slice_estimated_seconds: slice_estimate(file_size, audio_duration_ms),
            current_slice_elapsed_seconds: 0,
            current_step: q.current_step,
            ..p
        }) && q.current_step@ == "Transcribing audio..."@,
{
    let s = processing_seconds(file_size, audio_duration_ms);
    let estimated: u32 = if s > u32::MAX as u64 {
        u32::MAX
    } else {
        s as u32
    };
    match cell {
        Some(p) => {
            p.current_slice_id = Some(slice_id);
            p.current_slice_name = Some(slice_name);
            p.current_slice_file_size = file_size;
            p.current_slice_estimated_seconds = estimated;
            p.current_slice_elapsed_seconds = 0;
            p.current_step = String::from_str("Transcribing audio...");
        },
        None => {},
    }
}

/// Sets the current slice and step text.
pub fn update_transcription_progress(
    cell: &mut Option<TranscriptionProgress>,
    current_slice_id: Option<i64>,
    current_slice_name: Option<String>,
    current_step: &str,
)
    ensures
        *old(cell) is None ==> *final(cell) is None,
        *old(cell) matches Some(p) ==> *final(cell) matches Some(q) && q == (TranscriptionProgress {
            current_slice_id,
            current_slice_name,
            current_step: q.current_step,
            ..p
        }) && q.current_step@ == current_step@,
{
    match cell {
        Some(p) => {
            p.current_slice_id = current_slice_id;
            p.current_slice_name = current_slice_name;
            p.current_step = String::from_str(current_step);
        },
        None => {},
    }
}

/// Records the time spent so far on the batch and on the current slice.
pub fn set_elapsed_seconds(cell: &mut Option<TranscriptionProgress>, batch_seconds: u32, slice_seconds: Option<u32>)
    ensures
        *old(cell) is None ==> *final(cell) is None,
        *old(cell) matches Some(p) ==> *final(cell) == Some(
            if p.is_active {
                TranscriptionProgress {
                    elapsed_seconds: batch_seconds,
                    current_slice_elapsed_seconds: match slice_seconds {
                        Some(s) => s,
                        None => p.current_slice_elapsed_seconds,
                    },
                    ..p
                }
            } else {
                p
            },
        ),
{
    match cell {
        Some(p) => {
            if p.is_active {
                p.elapsed_seconds = batch_seconds;
                match slice_seconds {
                    Some(s) => {
                        p.current_slice_elapsed_seconds = s;
                    },
                    None => {},
                }
            }
        },
        None => {},
    }
}

/// Counts one more slice completed.
pub fn mark_slice_completed(cell: &mut Option<TranscriptionProgress>)
    ensures
        *old(cell) is None ==> *final(cell) is None,
        *old(cell) matches Some(p) ==> *final(cell) == Some(
            TranscriptionProgress { completed_slices: bump(p.completed_slices), ..p },
        ),
{
    match cell {
        Some(p) => {
            if p.completed_slices < u32::MAX {
                p.completed_slices = p.completed_slices + 1;
            }
        },
        None => {},
    }
}

/// Counts one more slice failed.
pub fn mark_slice_failed(cell: &mut Option<TranscriptionProgress>)
    ensures
        *old(cell) is None ==> *final(cell) is None,
        *old(cell) matches Some(p) ==> *final(cell) == Some(
            TranscriptionProgress { failed_slices: bump(p.failed_slices), ..p },
        ),
{
    match cell {
        Some(p) => {
            if p.failed_slices < u32::MAX {
                p.failed_slices = p.failed_slices + 1;
            }
        },
        None => {},
    }
}

/// Ends the batch: the snapshot stays, inactive, so observers can show the
/// result. Returns the total, completed and failed counts, if a batch was on.
pub fn clear_transcription_progress(cell: &mut Option<TranscriptionProgress>) -> (r: Option<(u32, u32, u32)>)
    ensures
        *old(cell) is None ==> *final(cell) is None && r is None,
        *old(cell) matches Some(p) ==> *final(cell) matches Some(q) && q == (TranscriptionProgress {
            is_active: false,
            current_step: q.current_step,
            ..p
        }) && q.current_step@ == "Complete"@ && r == Some((p.total_slices, p.completed_slices, p.failed_slices)),
{
    match cell {
        Some(p) => {
            p.is_active = false;
            p.current_step = String::from_str("Complete");
            Some((p.total_slices, p.completed_slices, p.failed_slices))
        },
        None => None,
    }
}

/// The number of whitespace-separated words of `s`.
pub open spec fn word_count_spec(s: Seq<char>) -> nat
    decreases s.len(),
{
    if s.len() == 0 {
        0
    } else if is_white_space(s.last()) {
        word_count_spec(s.drop_last())
    } else if s.len() == 1 || is_white_space(s[s.len() - 2]) {
        word_count_spec(s.drop_last()) + 1
    } else {
        word_count_spec(s.drop_last())
    }
}

proof fn lemma_word_count_bound(s: Seq<char>)
    ensures
        word_count_spec(s) <= s.len(),
    decreases s.len(),
{
    if s.len() > 0 {
        lemma_word_count_bound(s.drop_last());
    }
}

/// Counts the whitespace-separated words of `text`.
pub fn word_count(text: &str) -> (r: usize)
    ensures
        r == word_count_spec(text@),
{
    let cs = chars_of(text);
    let mut count: usize = 0;
    let mut prev_space = true;
    let mut i: usize = 0;
    while i < cs.len()
        invariant
            cs@ == text@,
            i <= cs@.len(),
            count == word_count_spec(cs@.subrange(0, i as int)),
            prev_space == (i == 0 || is_white_space(cs@[i - 1])),
        decreases cs@.len() - i,
    {
        let ghost pre = cs@.subrange(0, i as int + 1);
        proof {
            assert(pre.drop_last() =~= cs@.subrange(0, i as int));
            lemma_word_count_bound(cs@.subrange(0, i as int));
        }
        let space = is_whitespace(cs[i]);
        if !space && prev_space {
            count = count + 1;
        }
        prev_space = space;
        i += 1;
    }
    proof {
        assert(cs@.subrange(0, cs@.len() as int) =~= cs@);
    }
    count
}

/// The segments joined with one space between neighbours.
pub open spec fn joined_segments(segments: Seq<String>) -> Seq<char>
    decreases segments.len(),
{
    if segments.len() == 0 {
        Seq::empty()
    } else if segments.len() == 1 {
        segments[0]@
    } else {
        joined_segments(segments.drop_last()) + seq![' '] + segments.last()@
    }
}

/// Joining strings is joining their characters.
pub proof fn lemma_joined_segments_words(a: Seq<String>, b: Seq<Seq<char>>)
    requires
        a.len() == b.len(),
        forall|i: int| 0 <= i < a.len() ==> (#[trigger] a[i])@ == b[i],
    ensures
        joined_segments(a) == join_words(b),
    decreases a.len(),
{
    if a.len() > 1 {
        let a2 = a.drop_last();
        let b2 = b.drop_last();
        assert forall|i: int| 0 <= i < a2.len() implies (#[trigger] a2[i])@ == b2[i] by {
            assert(a2[i] == a[i]);
        }
        lemma_joined_segments_words(a2, b2);
    } else if a.len() == 1 {
        assert(a[0]@ == b[0]);
    }
}

/// The transcript: the engine's segments in arrival order, one space between neighbours.
pub fn join_segments(segments: &Vec<String>) -> (r: String)
    ensures
        r@ == joined_segments(segments@),
{
    let mut out = String::new();
    let mut i: usize = 0;
    while i < segments.len()
        invariant
            i <= segments@.len(),
            out@ == joined_segments(segments@.subrange(0, i as int)),
        decreases segments@.len() - i,
    {
        proof {
            assert(segments@.subrange(0, i as int + 1).drop_last() =~= segments@.subrange(0, i as int));
        }
        if i > 0 {
            push_char(&mut out, ' ');
        }
        out.append(segments[i].as_str());
        proof {
            if i == 0 {
                assert(out@ =~= segments@[0]@);
            }
        }
        i += 1;
    }
    proof {
        assert(segments@.subrange(0, segments@.len() as int) =~= segments@);
    }
    out
}

/// Characters a file name cannot hold.
pub open spec fn is_unsafe_name_char(c: char) -> bool {
    c == '/' || c == '\\' || c == ':' || c == '*' || c == '?' || c == '"' || c == '<' || c == '>'
        || c == '|'
}

/// `s` without the characters a file name cannot hold.
pub open spec fn without_unsafe(s: Seq<char>) -> Seq<char>
    decreases s.len(),
{
    if s.len() == 0 {
        s
    } else if is_unsafe_name_char(s.last()) {
        without_unsafe(s.drop_last())
    } else {
        without_unsafe(s.drop_last()).push(s.last())
    }
}

/// Longest name taken from a transcript, in characters.
pub const NAME_LENGTH: usize = 50;

/// The file name suggested by a transcript of the start of a slice: its
/// first 50 characters, without the characters a file name cannot hold,
/// trimmed; `Slice <id>` when nothing is left.
pub open spec fn suggested_name(text: Seq<char>, slice_id: int) -> Seq<char> {
    let prefix = if text.len() > 50 {
        text.subrange(0, 50)
    } else {
        text
    };
    let name = trim_end(trim_start(without_unsafe(prefix)));
    if name.len() == 0 {
        "Slice "@ + decimal_text(slice_id)
    } else {
        name
    }
}

/// Builds a file name out of a transcript of the start of a slice.
pub fn name_from_transcription(text: &str, slice_id: i64) -> (r: String)
    ensures
        r@ == suggested_name(text@, slice_id as int),
{
    let cs = chars_of(text);
    let limit: usize = if cs.len() > NAME_LENGTH {
        NAME_LENGTH
    } else {
        cs.len()
    };
    let ghost prefix = if text@.len() > 50 {
        text@.subrange(0, 50)
    } else {
        text@
    };
    let mut kept: Vec<char> = Vec::new();
    let mut i: usize = 0;
    while i < limit
        invariant
            cs@ == text@,
            limit == prefix.len(),
            limit <= cs@.len(),
            prefix == cs@.subrange(0, limit as int),
            i <= limit,
            kept@ == without_unsafe(prefix.subrange(0, i as int)),
        decreases limit - i,
    {
        proof {
            assert(prefix.subrange(0, i as int + 1).drop_last() =~= prefix.subrange(0, i as int));
        }
        let c = cs[i];
        if !(c == '/' || c == '\\' || c == ':' || c == '*' || c == '?' || c == '"' || c == '<' || c == '>' || c == '|') {
            kept.push(c);
        }
        i += 1;
    }
    proof {
        assert(prefix.subrange(0, limit as int) =~= prefix);
    }
    // Leading whitespace.
    let mut a: usize = 0;
    assert(kept@.subrange(0, kept@.len() as int) =~= kept@);
    while a < kept.len() && is_whitespace(kept[a])
        invariant
            a <= kept@.len(),
            trim_start(kept@) == trim_start(kept@.subrange(a as int, kept@.len() as int)),
        decreases kept@.len() - a,
    {
        proof {
            let rest = kept@.subrange(a as int, kept@.len() as int);
            assert(rest.drop_first() =~= kept@.subrange(a as int + 1, kept@.len() as int));
        }
        a += 1;
    }
    let ghost start = kept@.subrange(a as int, kept@.len() as int);
    assert(trim_start(kept@) == start) by {
        if a < kept@.len() {
            assert(start[0] == kept@[a as int]);
        }
    }
    // Trailing whitespace.
    let mut b: usize = kept.len();
    while b > a && is_whitespace(kept[b - 1])
        invariant
            a <= b <= kept@.len(),
            start == kept@.subrange(a as int, kept@.len() as int),
            trim_end(start) == trim_end(kept@.subrange(a as int, b as int)),
        decreases b,
    {
        proof {
            let cur = kept@.subrange(a as int, b as int);
            assert(cur.drop_last() =~= kept@.subrange(a as int, b as int - 1));
            assert(cur.last() == kept@[b - 1]);
        }
        b -= 1;
    }
    let ghost trimmed = kept@.subrange(a as int, b as int);
    assert(trim_end(start) == trimmed) by {
        if b > a {
            assert(trimmed.last() == kept@[b - 1]);
        }
    }
    if a == b {
        let mut out = String::from_str("Slice ");
        let digits = decimal(slice_id);
        out.append(digits.as_str());
        return out;
    }
    let mut out = String::new();
    let mut k: usize = a;
    while k < b
        invariant
            a <= k <= b,
            b <= kept@.len(),
            out@ == kept@.subrange(a as int, k as int),
        decreases b - k,
    {
        push_char(&mut out, kept[k]);
        proof {
            assert(out@ =~= kept@.subrange(a as int, k as int + 1));
        }
        k += 1;
    }
    out
}

/// The speech models the engine offers.
#[derive(PartialEq, Eq, Structural, Clone, Copy, Debug)]
pub enum WhisperModel {
    Tiny,
    TinyEn,
    Base,
    BaseEn,
    Small,
    SmallEn,
    Medium,
    MediumEn,
    Large,
    LargeV2,
    LargeV3,
    LargeV3Turbo,
}

/// The model a configured model name stands for.
pub open spec fn model_named(name: Seq<char>) -> Option<WhisperModel> {
    if name == "tiny"@ {
        Some(WhisperModel::Tiny)
    } else if name == "tiny.en"@ {
        Some(WhisperModel::TinyEn)
    } else if name == "base"@ {
        Some(WhisperModel::Base)
    } else if name == "base.en"@ {
        Some(WhisperModel::BaseEn)
    } else if name == "small"@ {
        Some(WhisperModel::Small)
    } else if name == "small.en"@ {
        Some(WhisperModel::SmallEn)
    } else if name == "medium"@ {
        Some(WhisperModel::Medium)
    } else if name == "medium.en"@ {
        Some(WhisperModel::MediumEn)
    } else if name == "large"@ || name == "large-v1"@ {
        Some(WhisperModel::Large)
    } else if name == "large-v2"@ {
        Some(WhisperModel::LargeV2)
    } else if name == "large-v3"@ {
        Some(WhisperModel::LargeV3)
    } else if name == "large-v3-turbo"@ {
        Some(WhisperModel::LargeV3Turbo)
    } else {
        None
    }
}

/// Why transcribing a slice failed.
#[derive(PartialEq, Eq, Structural, Clone, Copy, Debug)]
pub enum TranscribeError {
    /// No slice has the id.
    SliceNotFound,
    /// The slice's audio file is missing from managed storage.
    FileMissing,
    /// The configured model name is not one the engine offers.
    UnsupportedModel,
    /// The speech engine failed.
    EngineFailed,
    /// The catalog refused the result.
    Catalog(CatalogError),
}

/// What the caller needs to run the speech engine on one slice.
pub struct SliceJob {
    pub slice_id: i64,
    pub file_name: String,
    /// The audio must be converted to 16 kHz mono PCM first.
    pub needs_conversion: bool,
}

/// Whether a slice stored under `name` must be converted before transcription.
pub open spec fn needs_conversion(name: Seq<char>) -> bool {
    ends_with(name, ".m4a"@)
}

/// Drives the transcription of slices, one at a time.
pub struct TranscriptionEngine {
    pub config: Config,
}

impl TranscriptionEngine {
    pub fn new(config: Config) -> (r: TranscriptionEngine)
        ensures
            r.config == config,
    {
        TranscriptionEngine { config }
    }

    /// The model a name stands for.
    pub fn parse_model_name(&self, model_name: &str) -> (r: Result<WhisperModel, TranscribeError>)
        ensures
            model_named(model_name@) matches Some(m) ==> r == Ok::<WhisperModel, TranscribeError>(m),
            model_named(model_name@) is None ==> r == Err::<WhisperModel, TranscribeError>(
                TranscribeError::UnsupportedModel,
            ),
    {
        let n = String::from_str(model_name);
        if n == String::from_str("tiny") {
            Ok(WhisperModel::Tiny)
        } else if n == String::from_str("tiny.en") {
            Ok(WhisperModel::TinyEn)
        } else if n == String::from_str("base") {
            Ok(WhisperModel::Base)
        } else if n == String::from_str("base.en") {
            Ok(WhisperModel::BaseEn)
        } else if n == String::from_str("small") {
            Ok(WhisperModel::Small)
        } else if n == String::from_str("small.en") {
            Ok(WhisperModel::SmallEn)
        } else if n == String::from_str("medium") {
            Ok(WhisperModel::Medium)
        } else if n == String::from_str("medium.en") {
            Ok(WhisperModel::MediumEn)
        } else if n == String::from_str("large") || n == String::from_str("large-v1") {
            Ok(WhisperModel::Large)
        } else if n == String::from_str("large-v2") {
            Ok(WhisperModel::LargeV2)
        } else if n == String::from_str("large-v3") {
            Ok(WhisperModel::LargeV3)
        } else if n == String::from_str("large-v3-turbo") {
            Ok(WhisperModel::LargeV3Turbo)
        } else {
            Err(TranscribeError::UnsupportedModel)
        }
    }

    /// Prepares the transcription of the slice with id `slice_id`, given
    /// whether its audio file is present in managed storage. A missing slice
    /// or file fails the slice and counts it failed; otherwise the snapshot
    /// points at the slice.
    pub fn begin_slice(
        &self,
        progress: &mut Option<TranscriptionProgress>,
        catalog: &Catalog,
        slice_id: i64,
        audio_present: bool,
    ) -> (r: Result<SliceJob, TranscribeError>)
        requires
            catalog.wf(),
        ensures
            !has_id(catalog@, slice_id as int) ==> r == Err::<SliceJob, TranscribeError>(
                TranscribeError::SliceNotFound,
            ),
            has_id(catalog@, slice_id as int) && !audio_present ==> r == Err::<SliceJob, TranscribeError>(
                TranscribeError::FileMissing,
            ),
            r is Err ==> (*old(progress) is None ==> *final(progress) is None) && (*old(progress) matches Some(p) ==> *final(progress) == Some(
                TranscriptionProgress { failed_slices: bump(p.failed_slices), ..p },
            )),
            has_id(catalog@, slice_id as int) && audio_present ==> r is Ok,
            r matches Ok(job) ==> ({
                let s = catalog@[index_of_id(catalog@, slice_id as int)];
                &&& job.slice_id == slice_id
                &&& job.file_name@ == s.original_audio_file_name@
                &&& job.needs_conversion == needs_conversion(s.original_audio_file_name@)
                &&& (*old(progress) is None ==> *final(progress) is None)
                &&& (*old(progress) matches Some(p) ==> *final(progress) matches Some(q) && q == (TranscriptionProgress {
                    current_slice_id: Some(slice_id),
                    current_slice_name: q.current_slice_name,
                    current_slice_file_size: s.audio_file_size,
                    current_slice_estimated_seconds: slice_estimate(s.audio_file_size, s.audio_time_length_ms),
                    current_slice_elapsed_seconds: 0,
                    current_step: q.current_step,
                    ..p
                }) && q.current_slice_name is Some && q.current_slice_name.unwrap()@ == s.original_audio_file_name@)
            }),
    {
        let slice = match catalog.get(slice_id) {
            Some(s) => s,
            None => {
                mark_slice_failed(progress);
                return Err(TranscribeError::SliceNotFound);
            },
        };
        if !audio_present {
            mark_slice_failed(progress);
            return Err(TranscribeError::FileMissing);
        }
        start_current_slice(
            progress,
            slice_id,
            slice.original_audio_file_name.clone(),
            slice.audio_file_size,
            slice.audio_time_length_ms,
        );
        let name = chars_of(slice.original_audio_file_name.as_str());
        let suffix = chars_of(".m4a");
        let convert = crate::text::ends_with_chars(&name, &suffix);
        Ok(SliceJob { slice_id, file_name: slice.original_audio_file_name.clone(), needs_conversion: convert })
    }

    /// Stores the transcript the engine produced for the slice with id
    /// `slice_id`: the segments joined by spaces, their word count, the
    /// elapsed seconds and the configured model, in one update. Counts the
    /// slice completed, or failed where the catalog refuses.
    pub fn complete_slice(
        &self,
        progress: &mut Option<TranscriptionProgress>,
        catalog: &mut Catalog,
        slice_id: i64,
        segments: &Vec<String>,
        elapsed_seconds: u32,
    ) -> (r: Result<(), TranscribeError>)
        requires
            old(catalog).wf(),
        ensures
            final(catalog).wf(),
            final(catalog).next_id() == old(catalog).next_id(),
            r is Ok <==> has_id(old(catalog)@, slice_id as int),
            r is Err ==> r == Err::<(), TranscribeError>(TranscribeError::Catalog(CatalogError::NotFound))
                && final(catalog)@ == old(catalog)@,
            r is Ok ==> ({
                let i = index_of_id(old(catalog)@, slice_id as int);
                let s = final(catalog)@[i];
                let text = joined_segments(segments@);
                &&& final(catalog)@.len() == old(catalog)@.len()
                &&& forall|k: int|
                    0 <= k < old(catalog)@.len() && k != i ==> #[trigger] final(catalog)@[k] == old(
                        catalog,
                    )@[k]
                &&& s.transcribed
                &&& s.transcription matches Some(t) && t@ == text
                &&& s.transcription_time_taken == Some(elapsed_seconds)
                &&& s.transcription_word_count == Some(
                    if word_count_spec(text) > u32::MAX {
                        u32::MAX
                    } else {
                        word_count_spec(text) as u32
                    },
                )
                &&& s.transcription_model matches Some(m) && m@ == self.config.model_name@
            }),
            r is Ok ==> (*old(progress) is None ==> *final(progress) is None) && (*old(progress) matches Some(p) ==> *final(progress) matches Some(q)
                && q == (TranscriptionProgress {
                current_slice_id: Some(slice_id),
                current_slice_name: q.current_slice_name,
                current_step: q.current_step,
                completed_slices: bump(p.completed_slices),
                ..p
            }) && q.current_step@ == "Saving transcription..."@),
            r is Err ==> (*old(progress) is None ==> *final(progress) is None) && (*old(progress) matches Some(p) ==> *final(progress) == Some(
                TranscriptionProgress { failed_slices: bump(p.failed_slices), ..p },
            )),
    {
        let text = join_segments(segments);
        let words = word_count(text.as_str());
        let wc: u32 = if words > u32::MAX as usize {
            u32::MAX
        } else {
            words as u32
        };
        let name = match catalog.get(slice_id) {
            Some(s) => Some(s.original_audio_file_name.clone()),
            None => None,
        };
        match catalog.update_slice_transcription(
            slice_id,
            text.as_str(),
            elapsed_seconds,
            wc,
            self.config.model_name.as_str(),
        ) {
            Ok(()) => {
                update_transcription_progress(progress, Some(slice_id), name, "Saving transcription...");
                mark_slice_completed(progress);
                Ok(())
            },
            Err(e) => {
                mark_slice_failed(progress);
                Err(TranscribeError::Catalog(e))
            },
        }
    }

    /// Counts a slice failed whose conversion or engine run failed.
    pub fn engine_failed(&self, progress: &mut Option<TranscriptionProgress>) -> (r: TranscribeError)
        ensures
            r == TranscribeError::EngineFailed,
            *old(progress) is None ==> *final(progress) is None,
            *old(progress) matches Some(p) ==> *final(progress) == Some(
                TranscriptionProgress { failed_slices: bump(p.failed_slices), ..p },
            ),
    {
        mark_slice_failed(progress);
        TranscribeError::EngineFailed
    }
}

/// The slices of `ids` a batch takes: all of them, or, when already
/// transcribed slices are skipped, those cataloged and not transcribed.
pub open spec fn selected(v: Seq<Slice>, ids: Seq<i64>, skip_transcribed: bool) -> Seq<i64>
    decreases ids.len(),
{
    if ids.len() == 0 {
        ids
    } else {
        let rest = selected(v, ids.drop_last(), skip_transcribed);
        let id = ids.last();
        if !skip_transcribed || (has_id(v, id as int) && !v[index_of_id(v, id as int)].transcribed) {
            rest.push(id)
        } else {
            rest
        }
    }
}

/// Picks the slices a batch transcribes, in the order given.
pub fn select_slices(catalog: &Catalog, slice_ids: &Vec<i64>, skip_transcribed: bool) -> (r: Vec<i64>)
    requires
        catalog.wf(),
    ensures
        r@ == selected(catalog@, slice_ids@, skip_transcribed),
{
    let mut out: Vec<i64> = Vec::new();
    let mut i: usize = 0;
    while i < slice_ids.len()
        invariant
            catalog.wf(),
            i <= slice_ids@.len(),
            out@ == selected(catalog@, slice_ids@.subrange(0, i as int), skip_transcribed),
        decreases slice_ids@.len() - i,
    {
        proof {
            assert(slice_ids@.subrange(0, i as int + 1).drop_last() =~= slice_ids@.subrange(0, i as int));
        }
        let id = slice_ids[i];
        let take = if !skip_transcribed {
            true
        } else {
            match catalog.get(id) {
                Some(s) => !s.transcribed,
                None => false,
            }
        };
        if take {
            out.push(id);
        }
        i += 1;
    }
    proof {
        assert(slice_ids@.subrange(0, slice_ids@.len() as int) =~= slice_ids@);
    }
    out
}

/// Sum of the stored estimates of the cataloged slices among `ids`.
pub open spec fn estimated_total(v: Seq<Slice>, ids: Seq<i64>) -> int
    decreases ids.len(),
{
    if ids.len() == 0 {
        0
    } else {
        estimated_total(v, ids.drop_last()) + if has_id(v, ids.last() as int) {
            v[index_of_id(v, ids.last() as int)].estimated_time_to_transcribe as int
        } else {
            0
        }
    }
}

/// The expected length of a batch in seconds, held at the largest `u32`.
pub fn estimated_total_seconds(catalog: &Catalog, slice_ids: &Vec<i64>) -> (r: u32)
    requires
        catalog.wf(),
    ensures
        r as int == if estimated_total(catalog@, slice_ids@) > u32::MAX {
            u32::MAX as int
        } else {
            estimated_total(catalog@, slice_ids@)
        },
{
    let mut total: u32 = 0;
    let mut i: usize = 0;
    while i < slice_ids.len()
        invariant
            catalog.wf(),
            i <= slice_ids@.len(),
            total as int == if estimated_total(catalog@, slice_ids@.subrange(0, i as int)) > u32::MAX {
                u32::MAX as int
            } else {
                estimated_total(catalog@, slice_ids@.subrange(0, i as int))
            },
            estimated_total(catalog@, slice_ids@.subrange(0, i as int)) >= 0,
        decreases slice_ids@.len() - i,
    {
        proof {
            assert(slice_ids@.subrange(0, i as int + 1).drop_last() =~= slice_ids@.subrange(0, i as int));
            catalog.lemma_wf_view();
        }
        let add: u32 = match catalog.get(slice_ids[i]) {
            Some(s) => s.estimated_time_to_transcribe as u32,
            None => 0,
        };
        if total > u32::MAX - add {
            total = u32::MAX;
        } else {
            total = total + add;
        }
        i += 1;
    }
    proof {
        assert(slice_ids@.subrange(0, slice_ids@.len() as int) =~= slice_ids@);
    }
    total
}

} // verus!
