//! The data that flows through a scan, each type with its mathematical view.

use vstd::prelude::*;

verus! {

/// A commit's recorded time, as the repository holds it: seconds since the
/// epoch, and the author's offset from UTC.
#[derive(Clone, Copy, Debug, PartialEq, Eq)]
pub struct CommitTime {
    /// Seconds since 1970-01-01T00:00:00Z.
    pub seconds: i64,
    /// The sign as written, `'+'` or `'-'`. It matters only for an offset
    /// of zero written as negative; the offset itself is in `offset_minutes`.
    pub sign: char,
    /// The offset in minutes, signed: positive east of UTC, negative west.
    pub offset_minutes: i32,
}

/// How the text of a line is carried into its record.
#[derive(Clone, Copy, Debug, PartialEq, Eq)]
pub enum LinePolicy {
    /// The record carries no text.
    Omit,
    /// The record carries at most this many characters of the trimmed line.
    Excerpt(usize),
    /// The record carries the whole trimmed line.
    Full,
}

/// Why a blob could not be scanned.
#[derive(Clone, Copy, Debug, PartialEq, Eq)]
pub enum ScanError {
    /// The content is not well-formed UTF-8.
    Decode,
}

/// A line that holds the marker token.
#[derive(Clone, Debug, PartialEq, Eq)]
pub struct CandidateLine {
    pub path: String,
    pub line_number: usize,
    pub raw_text: String,
}

/// A candidate line as contracts see it.
pub struct CandidateLineView {
    pub path: Seq<char>,
    pub line_number: nat,
    pub raw_text: Seq<char>,
}

impl View for CandidateLine {
    type V = CandidateLineView;

    open spec fn view(&self) -> CandidateLineView {
        CandidateLineView {
            path: self.path@,
            line_number: self.line_number as nat,
            raw_text: self.raw_text@,
        }
    }
}

/// The commit that last changed a line.
#[derive(Clone, Debug, PartialEq, Eq)]
pub struct Attribution {
    pub commit_id: String,
    pub author: String,
    pub time: CommitTime,
}

/// An attribution as contracts see it.
pub struct AttributionView {
    pub commit_id: Seq<char>,
    pub author: Seq<char>,
    pub time: CommitTime,
}

impl View for Attribution {
    type V = AttributionView;

    open spec fn view(&self) -> AttributionView {
        AttributionView { commit_id: self.commit_id@, author: self.author@, time: self.time }
    }
}

/// One line of output: where the marker stands and who put it there.
#[derive(Clone, Debug, PartialEq, Eq)]
pub struct Record {
    pub path: String,
    pub line_number: usize,
    pub short_commit_id: String,
    pub author: String,
    pub rendered_line: Option<String>,
    pub datetime: String,
}

/// A record as contracts see it.
pub struct RecordView {
    pub path: Seq<char>,
    pub line_number: nat,
    pub short_commit_id: Seq<char>,
    pub author: Seq<char>,
    pub rendered_line: Option<Seq<char>>,
    pub datetime: Seq<char>,
}

/// The characters of an optional string.
pub open spec fn text_of(s: Option<String>) -> Option<Seq<char>> {
    match s {
        Some(t) => Some(t@),
        None => None,
    }
}

impl View for Record {
    type V = RecordView;

    open spec fn view(&self) -> RecordView {
        RecordView {
            path: self.path@,
            line_number: self.line_number as nat,
            short_commit_id: self.short_commit_id@,
            author: self.author@,
            rendered_line: text_of(self.rendered_line),
            datetime: self.datetime@,
        }
    }
}

/// The views of a run of candidate lines.
pub open spec fn candidate_views(lines: Seq<CandidateLine>) -> Seq<CandidateLineView> {
    Seq::new(lines.len(), |i: int| lines[i]@)
}

/// The view of an attribution that may be missing.
pub open spec fn attribution_view(a: Option<Attribution>) -> Option<AttributionView> {
    match a {
        Some(x) => Some(x@),
        None => None,
    }
}

/// The views of a run of attributions, missing ones included.
pub open spec fn attribution_views(items: Seq<Option<Attribution>>) -> Seq<
    Option<AttributionView>,
> {
    Seq::new(items.len(), |i: int| attribution_view(items[i]))
}

/// The views of a run of records.
pub open spec fn record_views(records: Seq<Record>) -> Seq<RecordView> {
    Seq::new(records.len(), |i: int| records[i]@)
}

} // verus!
