use vstd::prelude::*;

verus! {

/// A finalized timer session, in the shape in which it is persisted.
/// `detail` holds the free-text annotation lines joined by newlines;
/// `start_time` and `end_time` hold RFC 3339 text; `total_time_seconds`
/// is the accumulated running duration in whole seconds.
#[derive(Debug)]
pub struct TimerRecord {
    pub category: String,
    pub description: String,
    pub detail: String,
    pub start_time: String,
    pub end_time: String,
    pub total_time_seconds: i64,
}

/// The mathematical value of a `TimerRecord`.
pub struct RecordView {
    pub category: Seq<char>,
    pub description: Seq<char>,
    pub detail: Seq<char>,
    pub start_time: Seq<char>,
    pub end_time: Seq<char>,
    pub total_time_seconds: int,
}

impl View for TimerRecord {
    type V = RecordView;

    open spec fn view(&self) -> RecordView {
        RecordView {
            category: self.category@,
            description: self.description@,
            detail: self.detail@,
            start_time: self.start_time@,
            end_time: self.end_time@,
            total_time_seconds: self.total_time_seconds as int,
        }
    }
}

} // verus!
