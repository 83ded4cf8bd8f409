use vstd::prelude::*;

use crate::civil::{civil_to_local, parse_civil, spec_parse_civil};
use crate::record::{RecordView, TimerRecord};
use crate::store::{row_of, RecordStore, StorageError};
use crate::text::{trim_spec, trim_str};
use crate::time::Timestamp;

verus! {

/// The field of a manual entry whose text was at fault.
#[derive(Clone, Copy, PartialEq, Eq, Structural, Debug)]
pub enum TimeField {
    Start,
    End,
}

/// Why a manual entry was discarded: a time text that does not denote a
/// usable instant (naming the offending field), or a storage fault.
#[derive(Debug)]
pub enum ManualError {
    Parse(TimeField),
    Storage(StorageError),
}

/// The record a manual entry persists: trimmed category and description,
/// no detail, the two resolved instants as text, and their difference in
/// whole seconds as the total — negative when the end precedes the start,
/// which is deliberately not guarded.
pub open spec fn manual_record_view(
    category: Seq<char>,
    description: Seq<char>,
    start: Timestamp,
    end: Timestamp,
) -> RecordView {
    RecordView {
        category: trim_spec(category),
        description: trim_spec(description),
        detail: Seq::empty(),
        start_time: start.rfc3339@,
        end_time: end.rfc3339@,
        total_time_seconds: end.seconds - start.seconds,
    }
}

/// Build the record of a manual entry from the two resolved instants.
pub fn manual_record(category: &str, description: &str, start: &Timestamp, end: &Timestamp) -> (r:
    TimerRecord)
    requires
        start.wf(),
        end.wf(),
    ensures
        r@ == manual_record_view(category@, description@, *start, *end),
{
    let r = TimerRecord {
        category: trim_str(category).to_owned(),
        description: trim_str(description).to_owned(),
        detail: String::new(),
        start_time: start.rfc3339.clone(),
        end_time: end.rfc3339.clone(),
        total_time_seconds: end.seconds - start.seconds,
    };
    proof {
        assert(r@ =~= manual_record_view(category@, description@, *start, *end));
    }
    r
}

/// Record a historical session directly, bypassing the live timer (no
/// session state is consulted or touched).  Each time text is parsed
/// against the accepted formats and resolved in the local time zone; if
/// either step fails the entry is discarded whole — nothing is written —
/// and the offending field is named.  On success the new record, with
/// empty detail and the end-minus-start duration, is appended to the
/// store under a fresh id.
pub fn manual_entry(
    store: &mut RecordStore,
    category: &str,
    description: &str,
    start_text: &str,
    end_text: &str,
) -> (r: Result<(i64, TimerRecord), ManualError>)
    requires
        old(store).wf(),
    ensures
        final(store).wf(),
        spec_parse_civil(start_text@) is None ==> (r matches Err(e) && (e matches
            ManualError::Parse(TimeField::Start))),
        spec_parse_civil(start_text@) is Some && spec_parse_civil(end_text@) is None ==> (r matches
            Err(e) && (e matches ManualError::Parse(TimeField::End))),
        r is Err ==> final(store).rows() == old(store).rows(),
        (r matches Err(e) && (e matches ManualError::Storage(_))) ==> spec_parse_civil(
            start_text@,
        ) is Some && spec_parse_civil(end_text@) is Some,
        r matches Ok((id, rec)) ==> ({
            &&& final(store).rows() == old(store).rows().push(row_of(id as int, rec@))
            &&& rec@.category == trim_spec(category@)
            &&& rec@.description == trim_spec(description@)
            &&& rec@.detail == Seq::<char>::empty()
            &&& forall|i: int|
                0 <= i < old(store).rows().len() ==> #[trigger] old(store).rows()[i].0 < id
        }),
{
    let start_civil = match parse_civil(start_text) {
        Some(c) => c,
        None => {
            return Err(ManualError::Parse(TimeField::Start));
        },
    };
    let end_civil = match parse_civil(end_text) {
        Some(c) => c,
        None => {
            return Err(ManualError::Parse(TimeField::End));
        },
    };
    let start = match civil_to_local(&start_civil) {
        Some(t) => t,
        None => {
            return Err(ManualError::Parse(TimeField::Start));
        },
    };
    let end = match civil_to_local(&end_civil) {
        Some(t) => t,
        None => {
            return Err(ManualError::Parse(TimeField::End));
        },
    };
    let rec = manual_record(category, description, &start, &end);
    match store.insert(&rec) {
        Ok(id) => Ok((id, rec)),
        Err(e) => Err(ManualError::Storage(e)),
    }
}

} // verus!
