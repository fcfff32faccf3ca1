use vstd::prelude::*;
use crate::catalog::{held_u32, Catalog, Slice};
use crate::text::{chars_of, ends_with, ends_with_chars};

verus! {

// The secondary index of recordings kept by the voice memo app: a relative
// path and a recording date for each recording.

/// Seconds from the Unix epoch to 2001-01-01, where the index counts dates from.
pub const APPLE_EPOCH_OFFSET: i64 = 978_307_200;

/// One row of the index.
pub struct RecordingIndexEntry {
    /// Path of the recording, relative to the voice memo directory.
    pub path: String,
    /// Seconds since 2001-01-01.
    pub apple_date: i64,
}

/// The rows of the index, in stored order.
pub struct RecordingIndex {
    pub entries: Vec<RecordingIndexEntry>,
}

/// An index date as a Unix timestamp, when it fits.
pub open spec fn unix_date(apple_date: i64) -> Option<i64> {
    if apple_date as int + APPLE_EPOCH_OFFSET as int <= i64::MAX as int {
        Some((apple_date as int + APPLE_EPOCH_OFFSET as int) as i64)
    } else {
        None
    }
}

/// The date of the first row whose path ends with `name`.
pub open spec fn date_for_name(entries: Seq<RecordingIndexEntry>, name: Seq<char>) -> Option<i64>
    decreases entries.len(),
{
    if entries.len() == 0 {
        None
    } else if ends_with(entries[0].path@, name) {
        unix_date(entries[0].apple_date)
    } else {
        date_for_name(entries.drop_first(), name)
    }
}

impl RecordingIndex {
    /// An index with no rows.
    pub fn empty() -> (r: RecordingIndex)
        ensures
            r.entries@.len() == 0,
    {
        RecordingIndex { entries: Vec::new() }
    }

    /// The recording date of the file named `filename`: that of the first
    /// row whose path ends with the name, as a Unix timestamp.
    pub fn get_recording_date_for_filename(&self, filename: &str) -> (r: Option<i64>)
        ensures
            r == date_for_name(self.entries@, filename@),
    {
        let name = chars_of(filename);
        let mut i: usize = 0;
        assert(self.entries@.subrange(0, self.entries@.len() as int) =~= self.entries@);
        while i < self.entries.len()
            invariant
                i <= self.entries@.len(),
                name@ == filename@,
                date_for_name(self.entries@, filename@) == date_for_name(
                    self.entries@.subrange(i as int, self.entries@.len() as int),
                    filename@,
                ),
            decreases self.entries@.len() - i,
        {
            let ghost rest = self.entries@.subrange(i as int, self.entries@.len() as int);
            assert(rest.drop_first() =~= self.entries@.subrange(i as int + 1, self.entries@.len() as int));
            assert(rest[0] == self.entries@[i as int]);
            let path = chars_of(self.entries[i].path.as_str());
            if ends_with_chars(&path, &name) {
                let d = self.entries[i].apple_date;
                if d <= i64::MAX - APPLE_EPOCH_OFFSET {
                    return Some(d + APPLE_EPOCH_OFFSET);
                } else {
                    return None;
                }
            }
            i += 1;
        }
        None
    }
}

/// `v` with each slice that has no recording date given the one the index
/// holds for its name, where it holds one.
pub open spec fn backfilled(v: Seq<Slice>, entries: Seq<RecordingIndexEntry>) -> Seq<Slice> {
    Seq::new(v.len(), |k: int| backfilled_slice(v[k], entries))
}

pub open spec fn backfilled_slice(s: Slice, entries: Seq<RecordingIndexEntry>) -> Slice {
    if s.recording_date is None && date_for_name(entries, s.original_audio_file_name@) is Some {
        Slice { recording_date: date_for_name(entries, s.original_audio_file_name@), ..s }
    } else {
        s
    }
}

/// Whether the pass gives `s` a recording date.
pub open spec fn gets_date(s: Slice, entries: Seq<RecordingIndexEntry>) -> bool {
    s.recording_date is None && date_for_name(entries, s.original_audio_file_name@) is Some
}

/// How many slices of `v` the pass gives a recording date.
pub open spec fn backfill_count(v: Seq<Slice>, entries: Seq<RecordingIndexEntry>) -> int
    decreases v.len(),
{
    if v.len() == 0 {
        0
    } else {
        backfill_count(v.drop_last(), entries) + if gets_date(v.last(), entries) {
            1int
        } else {
            0int
        }
    }
}

/// Gives every slice without a recording date the date the index holds for
/// its file name; returns how many slices were given one.
pub fn backfill_recording_dates(catalog: &mut Catalog, index: &RecordingIndex) -> (r: u32)
    requires
        old(catalog).wf(),
    ensures
        final(catalog).wf(),
        final(catalog).next_id() == old(catalog).next_id(),
        final(catalog)@ == backfilled(old(catalog)@, index.entries@),
        r as int == held_u32(backfill_count(old(catalog)@, index.entries@)),
{
    let mut updated: u32 = 0;
    let mut i: usize = 0;
    let ghost start = catalog@;
    while i < catalog.len()
        invariant
            catalog.wf(),
            catalog.next_id() == old(catalog).next_id(),
            start == old(catalog)@,
            i <= catalog@.len(),
            catalog@.len() == start.len(),
            forall|k: int| 0 <= k < i ==> #[trigger] catalog@[k] == backfilled_slice(start[k], index.entries@),
            forall|k: int| i <= k < catalog@.len() ==> #[trigger] catalog@[k] == start[k],
            updated as int == held_u32(backfill_count(start.subrange(0, i as int), index.entries@)),
            backfill_count(start.subrange(0, i as int), index.entries@) >= 0,
        decreases catalog@.len() - i,
    {
        proof {
            assert(start.subrange(0, i as int + 1).drop_last() =~= start.subrange(0, i as int));
            assert(start.subrange(0, i as int + 1).last() == start[i as int]);
        }
        let s = catalog.at(i);
        if s.recording_date.is_none() {
            let found = index.get_recording_date_for_filename(s.original_audio_file_name.as_str());
            if found.is_some() {
                catalog.set_recording_date_at(i, found);
                if updated < u32::MAX {
                    updated = updated + 1;
                }
            }
        }
        i += 1;
    }
    assert(catalog@ =~= backfilled(start, index.entries@));
    assert(start.subrange(0, start.len() as int) =~= start);
    updated
}

} // verus!
