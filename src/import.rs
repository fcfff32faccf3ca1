use vstd::prelude::*;
use vstd::string::*;
use crate::catalog::{has_name, Catalog, CatalogError, Slice};
use crate::transcribe::{word_count, word_count_spec};

verus! {

// Slices added by hand: a typed-in text, or an audio file picked by the user.

/// Bytes of audio assumed per second of processing for a hand-imported file.
pub const IMPORT_BYTES_PER_SECOND: u64 = 34_000;

/// What `str::to_lowercase` makes of `s`.
pub uninterp spec fn lower_of(s: Seq<char>) -> Seq<char>;

/// Relies on `str::to_lowercase`: the result depends on the characters alone.
#[verifier::external_body]
fn lowercase(s: &str) -> (r: String)
    ensures
        r@ == lower_of(s@),
{
    s.to_lowercase()
}

/// The word count stored with a slice, held to `u32`.
pub open spec fn stored_word_count(text: Seq<char>) -> u32 {
    if word_count_spec(text) > u32::MAX {
        u32::MAX
    } else {
        word_count_spec(text) as u32
    }
}

/// The estimate stored with a hand-imported audio file: a second per
/// 34000 bytes, at least one, held to `i32`.
pub open spec fn import_estimate(size: u64) -> i32 {
    let s = size / 34_000;
    if s < 1 {
        1
    } else if s > i32::MAX {
        i32::MAX
    } else {
        s as i32
    }
}

/// Adds a text as a slice, transcribed from the start by `model`, under the
/// file name `file_name` and with `created` as its date.
fn insert_text_slice(
    catalog: &mut Catalog,
    file_name: String,
    title: String,
    content: String,
    created: i64,
    model: &str,
) -> (r: Result<i64, CatalogError>)
    requires
        old(catalog).wf(),
    ensures
        final(catalog).wf(),
        r is Ok ==> final(catalog)@ == old(catalog)@.push(
            Slice {
                id: Some(r->Ok_0),
                original_audio_file_name: file_name,
                title: Some(title),
                transcribed: true,
                audio_file_size: (vstd::utf8::encode_utf8(content@).len() as usize) as u64,
                audio_file_type: final(catalog)@.last().audio_file_type,
                estimated_time_to_transcribe: 1,
                audio_time_length_ms: None,
                transcription: Some(content),
                transcription_time_taken: Some(0),
                transcription_word_count: Some(stored_word_count(content@)),
                transcription_model: final(catalog)@.last().transcription_model,
                recording_date: Some(created),
            },
        ) && final(catalog)@.last().audio_file_type@ == "text"@ && final(catalog)@.last().transcription_model
            is Some && final(catalog)@.last().transcription_model.unwrap()@ == model@,
        r is Err ==> final(catalog)@ == old(catalog)@,
        has_name(old(catalog)@, file_name@) ==> r == Err::<i64, CatalogError>(CatalogError::DuplicateName),
        !has_name(old(catalog)@, file_name@) && old(catalog).next_id() < i64::MAX ==> r is Ok,
{
    let words = word_count(content.as_str());
    let wc: u32 = if words > u32::MAX as usize {
        u32::MAX
    } else {
        words as u32
    };
    let size = content.as_str().len() as u64;
    let slice = Slice {
        id: None,
        original_audio_file_name: file_name,
        title: Some(title),
        transcribed: true,
        audio_file_size: size,
        audio_file_type: String::from_str("text"),
        estimated_time_to_transcribe: 1,
        audio_time_length_ms: None,
        transcription: Some(content),
        transcription_time_taken: Some(0),
        transcription_word_count: Some(wc),
        transcription_model: Some(String::from_str(model)),
        recording_date: Some(created),
    };
    proof {
        catalog.lemma_wf_view();
    }
    catalog.insert_slice(slice)
}

/// Adds a typed-in text as a slice, transcribed from the start (model
/// `manual`), under the file name `file_name` and with `created` as its date.
pub fn create_text_slice(
    catalog: &mut Catalog,
    file_name: String,
    title: String,
    content: String,
    created: i64,
) -> (r: Result<i64, CatalogError>)
    requires
        old(catalog).wf(),
    ensures
        final(catalog).wf(),
        r is Ok ==> text_slice_added(old(catalog)@, final(catalog)@, r->Ok_0, file_name, title@, content, created, "manual"@),
        r is Err ==> final(catalog)@ == old(catalog)@,
        has_name(old(catalog)@, file_name@) ==> r == Err::<i64, CatalogError>(CatalogError::DuplicateName),
        !has_name(old(catalog)@, file_name@) && old(catalog).next_id() < i64::MAX ==> r is Ok,
{
    insert_text_slice(catalog, file_name, title, content, created, "manual")
}

/// Adds the text of a file the user picked (model `imported`), titled as
/// given, else by the file's stem, else `Imported Text`.
pub fn import_text_file_slice(
    catalog: &mut Catalog,
    file_name: String,
    title: Option<String>,
    stem: Option<String>,
    content: String,
    created: i64,
) -> (r: Result<i64, CatalogError>)
    requires
        old(catalog).wf(),
    ensures
        final(catalog).wf(),
        r is Ok ==> text_slice_added(old(catalog)@, final(catalog)@, r->Ok_0, file_name, text_title(title, stem), content, created, "imported"@),
        r is Err ==> final(catalog)@ == old(catalog)@,
        has_name(old(catalog)@, file_name@) ==> r == Err::<i64, CatalogError>(CatalogError::DuplicateName),
        !has_name(old(catalog)@, file_name@) && old(catalog).next_id() < i64::MAX ==> r is Ok,
{
    let chosen = match title {
        Some(t) => t,
        None => match stem {
            Some(s) => s,
            None => String::from_str("Imported Text"),
        },
    };
    insert_text_slice(catalog, file_name, chosen, content, created, "imported")
}

/// The title of an imported text file: the one given, else the file's
/// stem, else `Imported Text`.
pub open spec fn text_title(title: Option<String>, stem: Option<String>) -> Seq<char> {
    match title {
        Some(t) => t@,
        None => match stem {
            Some(s) => s@,
            None => "Imported Text"@,
        },
    }
}

/// `after` is `before` with one text slice added.
pub open spec fn text_slice_added(
    before: Seq<Slice>,
    after: Seq<Slice>,
    id: i64,
    file_name: String,
    title: Seq<char>,
    content: String,
    created: i64,
    model: Seq<char>,
) -> bool {
    let s = after.last();
    &&& after == before.push(s)
    &&& s.id == Some(id)
    &&& s.original_audio_file_name == file_name
    &&& s.title is Some && s.title.unwrap()@ == title
    &&& s.transcribed
    &&& s.audio_file_size == (vstd::utf8::encode_utf8(content@).len() as usize) as u64
    &&& s.audio_file_type@ == "text"@
    &&& s.estimated_time_to_transcribe == 1
    &&& s.audio_time_length_ms is None
    &&& s.transcription == Some(content)
    &&& s.transcription_time_taken == Some(0u32)
    &&& s.transcription_word_count == Some(stored_word_count(content@))
    &&& s.transcription_model is Some && s.transcription_model.unwrap()@ == model
    &&& s.recording_date == Some(created)
}

/// The title of an imported file: the one given, else the file's stem,
/// else `Imported Audio`.
pub open spec fn import_title(title: Option<String>, stem: Option<String>) -> Seq<char> {
    match title {
        Some(t) => t@,
        None => match stem {
            Some(s) => s@,
            None => "Imported Audio"@,
        },
    }
}

/// Adds an audio file the user picked and that was copied into managed
/// storage as `file_name`: `size` bytes, of the given extension (stored in
/// lower case), with the duration a probe found if any, titled as given
/// (else by the file's stem), dated `created`.
pub fn import_audio_slice(
    catalog: &mut Catalog,
    file_name: String,
    extension: &str,
    title: Option<String>,
    stem: Option<String>,
    size: u64,
    duration_ms: Option<u64>,
    created: i64,
) -> (r: Result<i64, CatalogError>)
    requires
        old(catalog).wf(),
    ensures
        final(catalog).wf(),
        has_name(old(catalog)@, file_name@) ==> r == Err::<i64, CatalogError>(CatalogError::DuplicateName),
        !has_name(old(catalog)@, file_name@) && old(catalog).next_id() < i64::MAX ==> r is Ok,
        r is Err ==> final(catalog)@ == old(catalog)@,
        r is Ok ==> ({
            let s = final(catalog)@.last();
            &&& final(catalog)@ == old(catalog)@.push(s)
            &&& s.id == Some(r->Ok_0)
            &&& s.original_audio_file_name == file_name
            &&& s.title is Some && s.title.unwrap()@ == import_title(title, stem)
            &&& !s.transcribed
            &&& s.audio_file_size == size
            &&& s.audio_file_type@ == lower_of(extension@)
            &&& s.estimated_time_to_transcribe == import_estimate(size)
            &&& s.audio_time_length_ms == duration_ms
            &&& s.transcription is None
            &&& s.transcription_time_taken is None
            &&& s.transcription_word_count is None
            &&& s.transcription_model is None
            &&& s.recording_date == Some(created)
        }),
{
    let per_second = size / IMPORT_BYTES_PER_SECOND;
    let estimate: i32 = if per_second < 1 {
        1
    } else if per_second > i32::MAX as u64 {
        i32::MAX
    } else {
        per_second as i32
    };
    let chosen = match title {
        Some(t) => t,
        None => match stem {
            Some(s) => s,
            None => String::from_str("Imported Audio"),
        },
    };
    let slice = Slice {
        id: None,
        original_audio_file_name: file_name,
        title: Some(chosen),
        transcribed: false,
        audio_file_size: size,
        audio_file_type: lowercase(extension),
        estimated_time_to_transcribe: estimate,
        audio_time_length_ms: duration_ms,
        transcription: None,
        transcription_time_taken: None,
        transcription_word_count: None,
        transcription_model: None,
        recording_date: Some(created),
    };
    proof {
        catalog.lemma_wf_view();
    }
    catalog.insert_slice(slice)
}

} // verus!
