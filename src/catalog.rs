use vstd::prelude::*;
use vstd::string::*;

verus! {

// The catalog of slices: every audio (or text) item under management, keyed
// by a store-assigned id and by its unique original file name.

/// Stored durations above a day (in milliseconds) are taken as corrupt.
pub const MAX_PLAUSIBLE_DURATION_MS: u64 = 86_400_000;

/// One item of audio or text content under management.
pub struct Slice {
    pub id: Option<i64>,
    pub original_audio_file_name: String,
    pub title: Option<String>,
    pub transcribed: bool,
    pub audio_file_size: u64,
    pub audio_file_type: String,
    /// Seconds.
    pub estimated_time_to_transcribe: i32,
    /// Decoded duration in milliseconds, when known.
    pub audio_time_length_ms: Option<u64>,
    pub transcription: Option<String>,
    /// Seconds.
    pub transcription_time_taken: Option<u32>,
    pub transcription_word_count: Option<u32>,
    pub transcription_model: Option<String>,
    /// Unix timestamp of the original recording.
    pub recording_date: Option<i64>,
}

/// Why a catalog operation was refused.
#[derive(PartialEq, Eq, Structural, Clone, Copy, Debug)]
pub enum CatalogError {
    /// Another slice already uses the file name.
    DuplicateName,
    /// No slice has the id.
    NotFound,
    /// The slice breaks a rule every stored slice keeps.
    InvalidSlice,
    /// Every id has been handed out.
    IdsExhausted,
}

impl CatalogError {
    /// A message for the user.
    pub fn message(&self) -> (r: String)
        ensures
            r@ == catalog_error_text(*self),
    {
        match self {
            CatalogError::DuplicateName => String::from_str("a slice with that filename already exists"),
            CatalogError::NotFound => String::from_str("slice not found"),
            CatalogError::InvalidSlice => String::from_str("slice fields are inconsistent"),
            CatalogError::IdsExhausted => String::from_str("no slice ids are left"),
        }
    }
}

pub open spec fn catalog_error_text(e: CatalogError) -> Seq<char> {
    match e {
        CatalogError::DuplicateName => "a slice with that filename already exists"@,
        CatalogError::NotFound => "slice not found"@,
        CatalogError::InvalidSlice => "slice fields are inconsistent"@,
        CatalogError::IdsExhausted => "no slice ids are left"@,
    }
}

/// An error as reported to the user interface: a message and a kind.
pub struct ApiError {
    pub message: String,
    pub kind: String,
}

impl ApiError {
    /// A catalog refusal, reported as a database error.
    pub fn from_catalog_error(e: CatalogError) -> (r: ApiError)
        ensures
            r.message@ == catalog_error_text(e),
            r.kind@ == "DatabaseError"@,
    {
        ApiError { message: e.message(), kind: String::from_str("DatabaseError") }
    }
}

/// The rules every stored slice keeps: a positive estimate, and a
/// transcribed slice carries all of its transcription fields.
pub open spec fn valid_slice(s: Slice) -> bool {
    &&& s.estimated_time_to_transcribe >= 1
    &&& s.transcribed ==> {
        &&& s.transcription is Some
        &&& s.transcription_time_taken is Some
        &&& s.transcription_word_count is Some
        &&& s.transcription_model is Some
    }
}

pub open spec fn id_of(s: Slice) -> int {
    match s.id {
        Some(v) => v as int,
        None => 0,
    }
}

pub open spec fn name_of(s: Slice) -> Seq<char> {
    s.original_audio_file_name@
}

/// Some slice of `v` is named `name`.
pub open spec fn has_name(v: Seq<Slice>, name: Seq<char>) -> bool {
    exists|i: int| 0 <= i < v.len() && #[trigger] name_of(v[i]) == name
}

/// Some slice of `v` other than the one with id `id` is named `name`.
pub open spec fn name_taken_by_other(v: Seq<Slice>, id: int, name: Seq<char>) -> bool {
    exists|i: int| 0 <= i < v.len() && #[trigger] name_of(v[i]) == name && id_of(v[i]) != id
}

/// Some slice of `v` has id `id`.
pub open spec fn has_id(v: Seq<Slice>, id: int) -> bool {
    exists|i: int| 0 <= i < v.len() && #[trigger] id_of(v[i]) == id
}

/// The position of the slice with id `id`.
pub open spec fn index_of_id(v: Seq<Slice>, id: int) -> int {
    choose|i: int| 0 <= i < v.len() && #[trigger] id_of(v[i]) == id
}

/// `s` with an implausible duration (above a day) cleared.
pub open spec fn repaired(s: Slice) -> Slice {
    match s.audio_time_length_ms {
        Some(d) => if d > MAX_PLAUSIBLE_DURATION_MS {
            Slice { audio_time_length_ms: None, ..s }
        } else {
            s
        },
        None => s,
    }
}

/// A stored duration above a day.
pub open spec fn is_corrupt(s: Slice) -> bool {
    s.audio_time_length_ms matches Some(d) && d > MAX_PLAUSIBLE_DURATION_MS
}

/// How many slices of `v` hold a duration above a day.
pub open spec fn corrupt_count(v: Seq<Slice>) -> int
    decreases v.len(),
{
    if v.len() == 0 {
        0
    } else {
        corrupt_count(v.drop_last()) + if is_corrupt(v.last()) {
            1int
        } else {
            0int
        }
    }
}

/// `x` held to `u32`.
pub open spec fn held_u32(x: int) -> int {
    if x > u32::MAX {
        u32::MAX as int
    } else {
        x
    }
}

/// `s` after a probe of its audio that gave `probe`: a missing duration is
/// filled when the probe found one.
pub open spec fn repopulated(s: Slice, probe: Option<u64>) -> Slice {
    if s.audio_time_length_ms is None && probe is Some {
        Slice { audio_time_length_ms: probe, ..s }
    } else {
        s
    }
}

/// The slices of `v` whose duration is unknown, in order.
pub open spec fn without_duration(v: Seq<Slice>) -> Seq<Slice>
    decreases v.len(),
{
    if v.len() == 0 {
        Seq::empty()
    } else {
        let rest = without_duration(v.drop_last());
        if v.last().audio_time_length_ms is None {
            rest.push(v.last())
        } else {
            rest
        }
    }
}

/// Summed size of the slices whose transcription was timed.
pub open spec fn timed_bytes(v: Seq<Slice>) -> int
    decreases v.len(),
{
    if v.len() == 0 {
        0
    } else {
        timed_bytes(v.drop_last()) + if counts_toward_rate(v.last()) {
            v.last().audio_file_size as int
        } else {
            0
        }
    }
}

/// Summed transcription seconds of the same slices.
pub open spec fn timed_seconds(v: Seq<Slice>) -> int
    decreases v.len(),
{
    if v.len() == 0 {
        0
    } else {
        timed_seconds(v.drop_last()) + if counts_toward_rate(v.last()) {
            v.last().transcription_time_taken.unwrap() as int
        } else {
            0
        }
    }
}

/// A slice whose transcription time and size are both positive.
pub open spec fn counts_toward_rate(s: Slice) -> bool {
    &&& s.transcribed
    &&& s.audio_file_size > 0
    &&& match s.transcription_time_taken {
        Some(t) => t > 0,
        None => false,
    }
}

/// Historical throughput in bytes per second of processing, rounded up, or
/// the default when nothing has been timed.
pub open spec fn throughput_of(v: Seq<Slice>) -> int {
    if timed_seconds(v) > 0 {
        crate::estimate::ceil_div(timed_bytes(v), timed_seconds(v))
    } else {
        crate::estimate::DEFAULT_BYTES_PER_SECOND as int
    }
}

fn clone_text(o: &Option<String>) -> (r: Option<String>)
    ensures
        r == *o,
{
    match o {
        Some(s) => Some(s.clone()),
        None => None,
    }
}

impl Slice {
    /// A field-for-field copy.
    pub fn duplicate(&self) -> (r: Slice)
        ensures
            r == *self,
    {
        Slice {
            id: self.id,
            original_audio_file_name: self.original_audio_file_name.clone(),
            title: clone_text(&self.title),
            transcribed: self.transcribed,
            audio_file_size: self.audio_file_size,
            audio_file_type: self.audio_file_type.clone(),
            estimated_time_to_transcribe: self.estimated_time_to_transcribe,
            audio_time_length_ms: self.audio_time_length_ms,
            transcription: clone_text(&self.transcription),
            transcription_time_taken: self.transcription_time_taken,
            transcription_word_count: self.transcription_word_count,
            transcription_model: clone_text(&self.transcription_model),
            recording_date: self.recording_date,
        }
    }

    /// Whether the slice keeps the rules of `valid_slice`.
    pub fn is_valid(&self) -> (r: bool)
        ensures
            r == valid_slice(*self),
    {
        self.estimated_time_to_transcribe >= 1 && (!self.transcribed || (self.transcription.is_some()
            && self.transcription_time_taken.is_some() && self.transcription_word_count.is_some()
            && self.transcription_model.is_some()))
    }
}

/// The catalog: slices in id order, each file name used once.
pub struct Catalog {
    slices: Vec<Slice>,
    next_id: i64,
}

impl View for Catalog {
    type V = Seq<Slice>;

    closed spec fn view(&self) -> Seq<Slice> {
        self.slices@
    }
}

impl Catalog {
    /// The id the next inserted slice receives.
    pub closed spec fn next_id(&self) -> int {
        self.next_id as int
    }

    pub closed spec fn wf(&self) -> bool {
        &&& self.next_id >= 1
        &&& forall|i: int| 0 <= i < self.slices@.len() ==> {
            &&& (#[trigger] self.slices@[i]).id is Some
            &&& 1 <= id_of(self.slices@[i]) < self.next_id
            &&& valid_slice(self.slices@[i])
        }
        &&& forall|i: int, j: int|
            0 <= i < j < self.slices@.len() ==> id_of(#[trigger] self.slices@[i]) < id_of(
                #[trigger] self.slices@[j],
            )
        &&& forall|i: int, j: int|
            0 <= i < self.slices@.len() && 0 <= j < self.slices@.len() && i != j ==> name_of(
                #[trigger] self.slices@[i],
            ) != name_of(#[trigger] self.slices@[j])
    }

    /// Facts that every well-formed catalog shows through its view.
    pub proof fn lemma_wf_view(&self)
        requires
            self.wf(),
        ensures
            1 <= self.next_id() <= i64::MAX,
            forall|i: int| 0 <= i < self@.len() ==> (#[trigger] self@[i]).id is Some && 1 <= id_of(
                self@[i],
            ) < self.next_id() && valid_slice(self@[i]),
            forall|i: int, j: int|
                0 <= i < j < self@.len() ==> id_of(#[trigger] self@[i]) < id_of(#[trigger] self@[j]),
            forall|i: int, j: int|
                0 <= i < self@.len() && 0 <= j < self@.len() && i != j ==> name_of(
                    #[trigger] self@[i],
                ) != name_of(#[trigger] self@[j]),
    {
    }

    /// An empty catalog.
    pub fn new() -> (r: Catalog)
        ensures
            r.wf(),
            r@ == Seq::<Slice>::empty(),
            r.next_id() == 1,
    {
        Catalog { slices: Vec::new(), next_id: 1 }
    }

    /// The number of slices.
    pub fn len(&self) -> (r: usize)
        ensures
            r == self@.len(),
    {
        self.slices.len()
    }

    /// The slice at position `i` in id order.
    pub fn at(&self, i: usize) -> (r: &Slice)
        requires
            i < self@.len(),
        ensures
            *r == self@[i as int],
    {
        &self.slices[i]
    }

    /// The position of the slice with id `id`, if any.
    pub fn position_of(&self, id: i64) -> (r: Option<usize>)
        requires
            self.wf(),
        ensures
            r is Some <==> has_id(self@, id as int),
            r matches Some(i) ==> i < self@.len() && id_of(self@[i as int]) == id && i as int
                == index_of_id(self@, id as int),
    {
        let mut i: usize = 0;
        while i < self.slices.len()
            invariant
                self.wf(),
                i <= self.slices@.len(),
                forall|k: int| 0 <= k < i ==> id_of(#[trigger] self.slices@[k]) != id,
            decreases self.slices@.len() - i,
        {
            match self.slices[i].id {
                Some(v) => {
                    if v == id {
                        proof {
                            let j = index_of_id(self@, id as int);
                            assert(id_of(self@[i as int]) == id);
                            assert(0 <= j < self@.len() && id_of(self@[j]) == id);
                            if j < i {
                            } else if i < j {
                                assert(id_of(self.slices@[i as int]) < id_of(self.slices@[j]));
                            }
                        }
                        return Some(i);
                    }
                },
                None => {},
            }
            i += 1;
        }
        None
    }

    /// The slice with id `id`, if any.
    pub fn get(&self, id: i64) -> (r: Option<&Slice>)
        requires
            self.wf(),
        ensures
            r is Some <==> has_id(self@, id as int),
            r matches Some(s) ==> *s == self@[index_of_id(self@, id as int)] && id_of(*s) == id,
    {
        match self.position_of(id) {
            Some(i) => Some(&self.slices[i]),
            None => None,
        }
    }

    /// Whether a slice is named `filename`.
    pub fn slice_exists(&self, filename: &str) -> (r: bool)
        ensures
            r == has_name(self@, filename@),
    {
        let target = String::from_str(filename);
        let mut i: usize = 0;
        while i < self.slices.len()
            invariant
                i <= self.slices@.len(),
                target@ == filename@,
                forall|k: int| 0 <= k < i ==> name_of(#[trigger] self.slices@[k]) != filename@,
            decreases self.slices@.len() - i,
        {
            if self.slices[i].original_audio_file_name == target {
                assert(name_of(self@[i as int]) == filename@);
                return true;
            }
            i += 1;
        }
        false
    }

    /// Whether a slice other than the one with id `id` is named `filename`.
    fn name_used_by_other(&self, id: i64, filename: &String) -> (r: bool)
        ensures
            r == name_taken_by_other(self@, id as int, filename@),
    {
        let mut i: usize = 0;
        while i < self.slices.len()
            invariant
                i <= self.slices@.len(),
                forall|k: int|
                    0 <= k < i ==> !(name_of(#[trigger] self.slices@[k]) == filename@ && id_of(
                        self.slices@[k],
                    ) != id),
            decreases self.slices@.len() - i,
        {
            let same_id = match self.slices[i].id {
                Some(v) => v == id,
                None => id == 0,
            };
            if !same_id && self.slices[i].original_audio_file_name == *filename {
                assert(name_of(self@[i as int]) == filename@ && id_of(self@[i as int]) != id);
                return true;
            }
            i += 1;
        }
        false
    }

    /// Adds `slice` under a fresh id, all or nothing. Refused when its name
    /// is taken, when it breaks the slice rules, or when ids have run out.
    pub fn insert_slice(&mut self, slice: Slice) -> (r: Result<i64, CatalogError>)
        requires
            old(self).wf(),
        ensures
            final(self).wf(),
            has_name(old(self)@, slice.original_audio_file_name@) ==> r == Err::<i64, CatalogError>(
                CatalogError::DuplicateName,
            ),
            !has_name(old(self)@, slice.original_audio_file_name@) && !valid_slice(slice) ==> r
                == Err::<i64, CatalogError>(CatalogError::InvalidSlice),
            !has_name(old(self)@, slice.original_audio_file_name@) && valid_slice(slice)
                && old(self).next_id() == i64::MAX ==> r == Err::<i64, CatalogError>(
                CatalogError::IdsExhausted,
            ),
            !has_name(old(self)@, slice.original_audio_file_name@) && valid_slice(slice)
                && old(self).next_id() < i64::MAX ==> r == Ok::<i64, CatalogError>(
                old(self).next_id() as i64,
            ),
            r is Ok ==> final(self)@ == old(self)@.push(
                Slice { id: Some(old(self).next_id() as i64), ..slice },
            ) && final(self).next_id() == old(self).next_id() + 1,
            r is Err ==> final(self)@ == old(self)@ && final(self).next_id() == old(self).next_id(),
    {
        if self.slice_exists(slice.original_audio_file_name.as_str()) {
            return Err(CatalogError::DuplicateName);
        }
        if !slice.is_valid() {
            return Err(CatalogError::InvalidSlice);
        }
        if self.next_id == i64::MAX {
            return Err(CatalogError::IdsExhausted);
        }
        let id = self.next_id;
        let stored = Slice { id: Some(id), ..slice };
        self.slices.push(stored);
        self.next_id = id + 1;
        proof {
            let v = self.slices@;
            assert forall|i: int, j: int|
                0 <= i < v.len() && 0 <= j < v.len() && i != j implies name_of(
                #[trigger] v[i],
            ) != name_of(#[trigger] v[j]) by {
                if i == v.len() - 1 {
                    assert(name_of(old(self)@[j]) != slice.original_audio_file_name@);
                } else if j == v.len() - 1 {
                    assert(name_of(old(self)@[i]) != slice.original_audio_file_name@);
                }
            }
        }
        Ok(id)
    }

    /// Puts back a slice that was stored before, under its own id, which
    /// must be above every id handed out so far (slices come back in id
    /// order). Refused, changing nothing, when the slice has no such id,
    /// when its name is taken, or when it breaks the slice rules.
    pub fn restore_slice(&mut self, slice: Slice) -> (r: Result<(), CatalogError>)
        requires
            old(self).wf(),
        ensures
            final(self).wf(),
            r is Ok <==> (slice.id is Some && old(self).next_id() <= id_of(slice) < i64::MAX
                && !has_name(old(self)@, slice.original_audio_file_name@) && valid_slice(slice)),
            r is Ok ==> final(self)@ == old(self)@.push(slice) && final(self).next_id() == id_of(slice) + 1,
            r is Err ==> final(self)@ == old(self)@ && final(self).next_id() == old(self).next_id(),
    {
        let id = match slice.id {
            Some(v) => v,
            None => {
                return Err(CatalogError::InvalidSlice);
            },
        };
        if id < self.next_id || id == i64::MAX {
            return Err(CatalogError::InvalidSlice);
        }
        if self.slice_exists(slice.original_audio_file_name.as_str()) {
            return Err(CatalogError::DuplicateName);
        }
        if !slice.is_valid() {
            return Err(CatalogError::InvalidSlice);
        }
        let ghost before = self.slices@;
        self.slices.push(slice);
        self.next_id = id + 1;
        proof {
            let v = self.slices@;
            assert forall|i: int, j: int|
                0 <= i < v.len() && 0 <= j < v.len() && i != j implies name_of(
                #[trigger] v[i],
            ) != name_of(#[trigger] v[j]) by {
                if i == v.len() - 1 {
                    assert(name_of(before[j]) != name_of(v[i]));
                } else if j == v.len() - 1 {
                    assert(name_of(before[i]) != name_of(v[j]));
                }
            }
        }
        Ok(())
    }

    /// Renames the slice with id `slice_id`. Refused, leaving every slice as
    /// it was, when another slice uses the name, or when no slice has the id.
    pub fn update_slice_name(&mut self, slice_id: i64, new_name: &str) -> (r: Result<
        (),
        CatalogError,
    >)
        requires
            old(self).wf(),
        ensures
            final(self).wf(),
            final(self).next_id() == old(self).next_id(),
            name_taken_by_other(old(self)@, slice_id as int, new_name@) ==> r == Err::<
                (),
                CatalogError,
            >(CatalogError::DuplicateName),
            !name_taken_by_other(old(self)@, slice_id as int, new_name@) && !has_id(
                old(self)@,
                slice_id as int,
            ) ==> r == Err::<(), CatalogError>(CatalogError::NotFound),
            !name_taken_by_other(old(self)@, slice_id as int, new_name@) && has_id(
                old(self)@,
                slice_id as int,
            ) ==> r is Ok,
            r is Ok ==> ({
                let i = index_of_id(old(self)@, slice_id as int);
                final(self)@.len() == old(self)@.len() && final(self)@[i].original_audio_file_name@
                    == new_name@ && final(self)@ == old(self)@.update(
                    i,
                    Slice {
                        original_audio_file_name: final(self)@[i].original_audio_file_name,
                        ..old(self)@[i]
                    },
                )
            }),
            r is Err ==> final(self)@ == old(self)@,
    {
        let name = String::from_str(new_name);
        if self.name_used_by_other(slice_id, &name) {
            return Err(CatalogError::DuplicateName);
        }
        match self.position_of(slice_id) {
            None => Err(CatalogError::NotFound),
            Some(i) => {
                let mut s = self.slices[i].duplicate();
                s.original_audio_file_name = name;
                self.replace_at(i, s);
                Ok(())
            },
        }
    }

    /// Puts `s` at position `i`, where it keeps the id already there and a
    /// name no other slice uses.
    fn replace_at(&mut self, i: usize, s: Slice)
        requires
            old(self).wf(),
            i < old(self)@.len(),
            s.id == old(self)@[i as int].id,
            valid_slice(s),
            !name_taken_by_other(old(self)@, id_of(old(self)@[i as int]), s.original_audio_file_name@),
        ensures
            final(self).wf(),
            final(self)@ == old(self)@.update(i as int, s),
            final(self).next_id() == old(self).next_id(),
    {
        let ghost before = self.slices@;
        self.slices.set(i, s);
        proof {
            let v = self.slices@;
            assert forall|a: int, b: int|
                0 <= a < v.len() && 0 <= b < v.len() && a != b implies name_of(
                #[trigger] v[a],
            ) != name_of(#[trigger] v[b]) by {
                if a == i {
                    assert(id_of(before[b]) != id_of(before[i as int])) by {
                        if b < i {
                            assert(id_of(before[b]) < id_of(before[i as int]));
                        } else {
                            assert(id_of(before[i as int]) < id_of(before[b]));
                        }
                    }
                } else if b == i {
                    assert(id_of(before[a]) != id_of(before[i as int])) by {
                        if a < i {
                            assert(id_of(before[a]) < id_of(before[i as int]));
                        } else {
                            assert(id_of(before[i as int]) < id_of(before[a]));
                        }
                    }
                }
            }
            assert forall|a: int, b: int| 0 <= a < b < v.len() implies id_of(#[trigger] v[a])
                < id_of(#[trigger] v[b]) by {
                assert(id_of(before[a]) < id_of(before[b]));
            }
        }
    }

    /// Replaces every field of the slice with id `slice_id` by those of
    /// `slice` (its id aside). Refused, leaving every slice as it was, when
    /// another slice uses the new name, when no slice has the id, or when the
    /// new fields break the slice rules.
    pub fn update_slice(&mut self, slice_id: i64, slice: &Slice) -> (r: Result<(), CatalogError>)
        requires
            old(self).wf(),
        ensures
            final(self).wf(),
            final(self).next_id() == old(self).next_id(),
            name_taken_by_other(old(self)@, slice_id as int, slice.original_audio_file_name@) ==> r
                == Err::<(), CatalogError>(CatalogError::DuplicateName),
            !name_taken_by_other(old(self)@, slice_id as int, slice.original_audio_file_name@)
                && !has_id(old(self)@, slice_id as int) ==> r == Err::<(), CatalogError>(
                CatalogError::NotFound,
            ),
            !name_taken_by_other(old(self)@, slice_id as int, slice.original_audio_file_name@)
                && has_id(old(self)@, slice_id as int) && !valid_slice(*slice) ==> r == Err::<
                (),
                CatalogError,
            >(CatalogError::InvalidSlice),
            !name_taken_by_other(old(self)@, slice_id as int, slice.original_audio_file_name@)
                && has_id(old(self)@, slice_id as int) && valid_slice(*slice) ==> r is Ok,
            r is Ok ==> final(self)@ == old(self)@.update(
                index_of_id(old(self)@, slice_id as int),
                Slice { id: Some(slice_id), ..*slice },
            ),
            r is Err ==> final(self)@ == old(self)@,
    {
        if self.name_used_by_other(slice_id, &slice.original_audio_file_name) {
            return Err(CatalogError::DuplicateName);
        }
        match self.position_of(slice_id) {
            None => Err(CatalogError::NotFound),
            Some(i) => {
                if !slice.is_valid() {
                    return Err(CatalogError::InvalidSlice);
                }
                let mut s = slice.duplicate();
                s.id = Some(slice_id);
                self.replace_at(i, s);
                Ok(())
            },
        }
    }

    /// Records a finished transcription on the slice with id `slice_id`, all
    /// fields at once, and marks it transcribed.
    pub fn update_slice_transcription(
        &mut self,
        slice_id: i64,
        transcription: &str,
        transcription_time_taken: u32,
        word_count: u32,
        model_name: &str,
    ) -> (r: Result<(), CatalogError>)
        requires
            old(self).wf(),
        ensures
            final(self).wf(),
            final(self).next_id() == old(self).next_id(),
            r is Ok <==> has_id(old(self)@, slice_id as int),
            r is Err ==> r == Err::<(), CatalogError>(CatalogError::NotFound) && final(self)@ == old(
                self,
            )@,
            r is Ok ==> ({
                let i = index_of_id(old(self)@, slice_id as int);
                let s = final(self)@[i];
                &&& final(self)@.len() == old(self)@.len()
                &&& forall|k: int|
                    0 <= k < old(self)@.len() && k != i ==> #[trigger] final(self)@[k] == old(
                        self,
                    )@[k]
                &&& s == Slice {
                    transcribed: true,
                    transcription: s.transcription,
                    transcription_time_taken: Some(transcription_time_taken),
                    transcription_word_count: Some(word_count),
                    transcription_model: s.transcription_model,
                    ..old(self)@[i]
                }
                &&& s.transcription is Some && s.transcription.unwrap()@ == transcription@
                &&& s.transcription_model is Some && s.transcription_model.unwrap()@ == model_name@
            }),
    {
        match self.position_of(slice_id) {
            None => Err(CatalogError::NotFound),
            Some(i) => {
                let mut s = self.slices[i].duplicate();
                s.transcribed = true;
                s.transcription = Some(String::from_str(transcription));
                s.transcription_time_taken = Some(transcription_time_taken);
                s.transcription_word_count = Some(word_count);
                s.transcription_model = Some(String::from_str(model_name));
                proof {
                    assert(!name_taken_by_other(self@, id_of(self@[i as int]), s.original_audio_file_name@)) by {
                        if name_taken_by_other(self@, id_of(self@[i as int]), s.original_audio_file_name@) {
                            let k = choose|k: int| 0 <= k < self@.len() && #[trigger] name_of(self@[k]) == s.original_audio_file_name@ && id_of(self@[k]) != id_of(self@[i as int]);
                            assert(name_of(self@[k]) != name_of(self@[i as int]));
                        }
                    }
                }
                self.replace_at(i, s);
                Ok(())
            },
        }
    }

    /// Stores a probed duration on the slice with id `slice_id`.
    pub fn update_slice_audio_duration(&mut self, slice_id: i64, duration_ms: u64) -> (r: Result<
        (),
        CatalogError,
    >)
        requires
            old(self).wf(),
        ensures
            final(self).wf(),
            final(self).next_id() == old(self).next_id(),
            r is Ok <==> has_id(old(self)@, slice_id as int),
            r is Err ==> r == Err::<(), CatalogError>(CatalogError::NotFound) && final(self)@ == old(
                self,
            )@,
            r is Ok ==> final(self)@ == old(self)@.update(
                index_of_id(old(self)@, slice_id as int),
                Slice {
                    audio_time_length_ms: Some(duration_ms),
                    ..old(self)@[index_of_id(old(self)@, slice_id as int)]
                },
            ),
    {
        match self.position_of(slice_id) {
            None => Err(CatalogError::NotFound),
            Some(i) => {
                let mut s = self.slices[i].duplicate();
                s.audio_time_length_ms = Some(duration_ms);
                proof {
                    self.lemma_own_name_free(i as int);
                }
                self.replace_at(i, s);
                Ok(())
            },
        }
    }

    /// The slice at position `i` is the only one with its name.
    proof fn lemma_own_name_free(&self, i: int)
        requires
            self.wf(),
            0 <= i < self@.len(),
        ensures
            !name_taken_by_other(self@, id_of(self@[i]), name_of(self@[i])),
    {
        if name_taken_by_other(self@, id_of(self@[i]), name_of(self@[i])) {
            let k = choose|k: int|
                0 <= k < self@.len() && #[trigger] name_of(self@[k]) == name_of(self@[i]) && id_of(
                    self@[k],
                ) != id_of(self@[i]);
            assert(name_of(self@[k]) != name_of(self@[i]));
        }
    }

    /// Sets the recording date of the slice at position `i`.
    pub fn set_recording_date_at(&mut self, i: usize, date: Option<i64>)
        requires
            old(self).wf(),
            i < old(self)@.len(),
        ensures
            final(self).wf(),
            final(self).next_id() == old(self).next_id(),
            final(self)@ == old(self)@.update(i as int, Slice { recording_date: date, ..old(self)@[i as int] }),
    {
        let mut s = self.slices[i].duplicate();
        s.recording_date = date;
        proof {
            self.lemma_own_name_free(i as int);
        }
        self.replace_at(i, s);
    }

    /// Sets the title of the slice at position `i`.
    pub fn set_title_at(&mut self, i: usize, title: Option<String>)
        requires
            old(self).wf(),
            i < old(self)@.len(),
        ensures
            final(self).wf(),
            final(self).next_id() == old(self).next_id(),
            final(self)@ == old(self)@.update(i as int, Slice { title: title, ..old(self)@[i as int] }),
    {
        let mut s = self.slices[i].duplicate();
        s.title = title;
        proof {
            self.lemma_own_name_free(i as int);
        }
        self.replace_at(i, s);
    }

    /// Clears every stored duration above a day; returns how many were cleared.
    pub fn clear_corrupt_audio_durations(&mut self) -> (r: u32)
        requires
            old(self).wf(),
        ensures
            final(self).wf(),
            final(self).next_id() == old(self).next_id(),
            final(self)@.len() == old(self)@.len(),
            forall|k: int| 0 <= k < old(self)@.len() ==> #[trigger] final(self)@[k] == repaired(old(self)@[k]),
            r as int == held_u32(corrupt_count(old(self)@)),
    {
        let ghost start = old(self)@;
        let mut cleared: u32 = 0;
        let mut i: usize = 0;
        while i < self.slices.len()
            invariant
                self.wf(),
                self.next_id() == old(self).next_id(),
                i <= self@.len(),
                self@.len() == old(self)@.len(),
                forall|k: int| 0 <= k < i ==> #[trigger] self@[k] == repaired(old(self)@[k]),
                forall|k: int| i <= k < self@.len() ==> #[trigger] self@[k] == old(self)@[k],
                start == old(self)@,
                cleared as int == held_u32(corrupt_count(start.subrange(0, i as int))),
                corrupt_count(start.subrange(0, i as int)) >= 0,
            decreases self@.len() - i,
        {
            proof {
                assert(start.subrange(0, i as int + 1).drop_last() =~= start.subrange(0, i as int));
                assert(start.subrange(0, i as int + 1).last() == start[i as int]);
            }
            let corrupt = match self.slices[i].audio_time_length_ms {
                Some(d) => d > MAX_PLAUSIBLE_DURATION_MS,
                None => false,
            };
            if corrupt {
                let mut s = self.slices[i].duplicate();
                s.audio_time_length_ms = None;
                proof {
                    self.lemma_own_name_free(i as int);
                }
                self.replace_at(i, s);
                if cleared < u32::MAX {
                    cleared = cleared + 1;
                }
            }
            i += 1;
        }
        assert(start.subrange(0, start.len() as int) =~= start);
        cleared
    }

    /// Fills the missing duration of the slice with id `slice_id` from a
    /// probe of its audio; a failed probe (`None`) or a known duration leaves
    /// it as it is. Returns whether a duration was stored.
    pub fn populate_audio_duration(&mut self, slice_id: i64, probe: Option<u64>) -> (r: Result<
        bool,
        CatalogError,
    >)
        requires
            old(self).wf(),
        ensures
            final(self).wf(),
            final(self).next_id() == old(self).next_id(),
            r is Ok <==> has_id(old(self)@, slice_id as int),
            r is Err ==> final(self)@ == old(self)@,
            r is Ok ==> final(self)@ == old(self)@.update(
                index_of_id(old(self)@, slice_id as int),
                repopulated(old(self)@[index_of_id(old(self)@, slice_id as int)], probe),
            ),
            r == Ok::<bool, CatalogError>(true) <==> (has_id(old(self)@, slice_id as int) && probe is Some
                && old(self)@[index_of_id(old(self)@, slice_id as int)].audio_time_length_ms is None),
    {
        match self.position_of(slice_id) {
            None => Err(CatalogError::NotFound),
            Some(i) => {
                if self.slices[i].audio_time_length_ms.is_none() {
                    match probe {
                        Some(d) => {
                            let mut s = self.slices[i].duplicate();
                            s.audio_time_length_ms = Some(d);
                            proof {
                                self.lemma_own_name_free(i as int);
                            }
                            self.replace_at(i, s);
                            return Ok(true);
                        },
                        None => {},
                    }
                }
                proof {
                    assert(self@.update(i as int, self@[i as int]) =~= self@);
                }
                Ok(false)
            },
        }
    }

    /// Copies of the slices whose duration is unknown, in id order.
    pub fn get_slices_without_duration(&self) -> (r: Vec<Slice>)
        ensures
            r@ == without_duration(self@),
    {
        let mut out: Vec<Slice> = Vec::new();
        let mut i: usize = 0;
        while i < self.slices.len()
            invariant
                i <= self@.len(),
                out@ == without_duration(self@.subrange(0, i as int)),
            decreases self@.len() - i,
        {
            proof {
                assert(self@.subrange(0, i as int + 1).drop_last() =~= self@.subrange(0, i as int));
            }
            if self.slices[i].audio_time_length_ms.is_none() {
                out.push(self.slices[i].duplicate());
            }
            i += 1;
        }
        proof {
            assert(self@.subrange(0, self@.len() as int) =~= self@);
        }
        out
    }

    /// Copies of all slices, in id order.
    pub fn list_all_slices(&self) -> (r: Vec<Slice>)
        ensures
            r@ == self@,
    {
        let mut out: Vec<Slice> = Vec::new();
        let mut i: usize = 0;
        while i < self.slices.len()
            invariant
                i <= self@.len(),
                out@ == self@.subrange(0, i as int),
            decreases self@.len() - i,
        {
            out.push(self.slices[i].duplicate());
            proof {
                assert(out@ =~= self@.subrange(0, i as int + 1));
            }
            i += 1;
        }
        proof {
            assert(self@.subrange(0, self@.len() as int) =~= self@);
        }
        out
    }

    /// Removes every slice; ids keep counting from where they were.
    pub fn clear_all_slices(&mut self)
        requires
            old(self).wf(),
        ensures
            final(self).wf(),
            final(self)@ == Seq::<Slice>::empty(),
            final(self).next_id() == old(self).next_id(),
    {
        self.slices = Vec::new();
    }

    /// Historical throughput: the summed size of the slices whose
    /// transcription was timed over their summed transcription seconds, in
    /// bytes per second, rounded up (so at least one); the default when none
    /// was timed.
    pub fn get_transcription_speed(&self) -> (r: u64)
        ensures
            r as int == throughput_of(self@),
    {
        let mut bytes: u128 = 0;
        let mut seconds: u128 = 0;
        let mut i: usize = 0;
        while i < self.slices.len()
            invariant
                i <= self@.len(),
                bytes as int == timed_bytes(self@.subrange(0, i as int)),
                seconds as int == timed_seconds(self@.subrange(0, i as int)),
                bytes as int <= i as int * u64::MAX as int,
                seconds as int <= i as int * u32::MAX as int,
                bytes as int <= seconds as int * u64::MAX as int,
            decreases self@.len() - i,
        {
            proof {
                assert(self@.subrange(0, i as int + 1).drop_last() =~= self@.subrange(0, i as int));
            }
            let s = &self.slices[i];
            let timed = s.transcribed && s.audio_file_size > 0 && match s.transcription_time_taken {
                Some(t) => t > 0,
                None => false,
            };
            if timed {
                let t = s.transcription_time_taken.unwrap();
                proof {
                    assert(bytes + s.audio_file_size <= (seconds + t) * u64::MAX) by (nonlinear_arith)
                        requires
                            bytes as int <= seconds as int * u64::MAX as int,
                            s.audio_file_size <= u64::MAX,
                            t >= 1,
                    {
                    }
                    assert(i as int * u64::MAX as int + u64::MAX as int == (i as int + 1) * u64::MAX as int) by (nonlinear_arith);
                    assert(i as int * u32::MAX as int + u32::MAX as int == (i as int + 1) * u32::MAX as int) by (nonlinear_arith);
                    assert(i < usize::MAX);
                    assert((i as int + 1) * u64::MAX as int <= 0x1_0000_0000_0000_0000 * 0x1_0000_0000_0000_0000) by (nonlinear_arith)
                        requires i < usize::MAX, usize::MAX <= u64::MAX;
                }
                bytes = bytes + s.audio_file_size as u128;
                seconds = seconds + t as u128;
            } else {
                proof {
                    assert(i as int * u64::MAX as int <= (i as int + 1) * u64::MAX as int) by (nonlinear_arith);
                    assert(i as int * u32::MAX as int <= (i as int + 1) * u32::MAX as int) by (nonlinear_arith);
                }
            }
            i += 1;
        }
        proof {
            assert(self@.subrange(0, self@.len() as int) =~= self@);
        }
        if seconds > 0 {
            let q = bytes / seconds;
            let rem = bytes % seconds;
            proof {
                crate::estimate::lemma_ceil_div_least(bytes as int, seconds as int, u64::MAX as int);
                let b = bytes as int;
                let s = seconds as int;
                vstd::arithmetic::div_mod::lemma_fundamental_div_mod(b, s);
                assert(b == s * (q as int) + rem as int);
                if rem == 0 {
                    vstd::arithmetic::div_mod::lemma_fundamental_div_mod_converse(b + s - 1, s, q as int, s - 1);
                } else {
                    assert(b + s - 1 == (q as int + 1) * s + (rem as int - 1)) by (nonlinear_arith)
                        requires
                            b == s * (q as int) + rem as int,
                    {
                    }
                    vstd::arithmetic::div_mod::lemma_fundamental_div_mod_converse(b + s - 1, s, q as int + 1, rem as int - 1);
                }
            }
            if rem == 0 {
                q as u64
            } else {
                (q + 1) as u64
            }
        } else {
            crate::estimate::DEFAULT_BYTES_PER_SECOND
        }
    }
}

/// `v` after a probe of the audio of the slice with id `probe.0` gave `probe.1`.
pub open spec fn after_probe(v: Seq<Slice>, probe: (i64, Option<u64>)) -> Seq<Slice> {
    if has_id(v, probe.0 as int) {
        v.update(
            index_of_id(v, probe.0 as int),
            repopulated(v[index_of_id(v, probe.0 as int)], probe.1),
        )
    } else {
        v
    }
}

/// The probe fills a missing duration.
pub open spec fn probe_fills(v: Seq<Slice>, probe: (i64, Option<u64>)) -> bool {
    has_id(v, probe.0 as int) && probe.1 is Some && v[index_of_id(v, probe.0 as int)].audio_time_length_ms is None
}

/// `v` after the probes, in order.
pub open spec fn after_probes(v: Seq<Slice>, probes: Seq<(i64, Option<u64>)>) -> Seq<Slice>
    decreases probes.len(),
{
    if probes.len() == 0 {
        v
    } else {
        after_probe(after_probes(v, probes.drop_last()), probes.last())
    }
}

/// How many of the probes fill a missing duration.
pub open spec fn fill_count(v: Seq<Slice>, probes: Seq<(i64, Option<u64>)>) -> int
    decreases probes.len(),
{
    if probes.len() == 0 {
        0
    } else {
        fill_count(v, probes.drop_last()) + if probe_fills(after_probes(v, probes.drop_last()), probes.last()) {
            1int
        } else {
            0int
        }
    }
}

impl Catalog {
    /// The duration pass: stores what probing the audio of each listed slice
    /// found, where its duration is missing and the probe found one. Returns
    /// how many durations were stored.
    pub fn apply_duration_probes(&mut self, probes: &Vec<(i64, Option<u64>)>) -> (r: u32)
        requires
            old(self).wf(),
        ensures
            final(self).wf(),
            final(self).next_id() == old(self).next_id(),
            final(self)@ == after_probes(old(self)@, probes@),
            r as int == held_u32(fill_count(old(self)@, probes@)),
    {
        let mut count: u32 = 0;
        let mut i: usize = 0;
        while i < probes.len()
            invariant
                self.wf(),
                self.next_id() == old(self).next_id(),
                i <= probes@.len(),
                self@ == after_probes(old(self)@, probes@.subrange(0, i as int)),
                count as int == held_u32(fill_count(old(self)@, probes@.subrange(0, i as int))),
                fill_count(old(self)@, probes@.subrange(0, i as int)) >= 0,
            decreases probes@.len() - i,
        {
            proof {
                assert(probes@.subrange(0, i as int + 1).drop_last() =~= probes@.subrange(0, i as int));
                assert(probes@.subrange(0, i as int + 1).last() == probes@[i as int]);
            }
            let (id, probe) = probes[i];
            match self.populate_audio_duration(id, probe) {
                Ok(true) => {
                    if count < u32::MAX {
                        count = count + 1;
                    }
                },
                _ => {},
            }
            i += 1;
        }
        assert(probes@.subrange(0, probes@.len() as int) =~= probes@);
        count
    }
}

/// Clearing a duration above a day and probing again leaves the probed value
/// (nothing, where probing still fails); a plausible duration survives both.
pub proof fn lemma_repair_round_trip(s: Slice, probe: Option<u64>)
    ensures
        (s.audio_time_length_ms matches Some(d) && d > MAX_PLAUSIBLE_DURATION_MS) ==> repaired(
            s,
        ).audio_time_length_ms is None && repopulated(repaired(s), probe).audio_time_length_ms
            == probe,
        (s.audio_time_length_ms matches Some(d) && d <= MAX_PLAUSIBLE_DURATION_MS) ==> repopulated(
            repaired(s),
            probe,
        ) == s,
        repopulated(repaired(s), probe).original_audio_file_name == s.original_audio_file_name,
{
}

} // verus!
