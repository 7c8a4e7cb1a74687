//! Archived timeline segments (version 4): a full timeline snapshot kept so
//! that a cleaned-up session can still show its history.

use vstd::prelude::*;

use crate::session::timeline::TimelineDocument;

verus! {

/// A timeline archive segment for one session.
#[derive(Debug)]
pub struct ArchiveTimeline {
    pub archived_through_sequence_no: i64,
    pub timeline: TimelineDocument,
}

/// The top-level archive document.
#[derive(Debug)]
pub struct ArchiveV4 {
    pub version: u32,
    pub session_id: String,
    pub archived_through_sequence_no: i64,
    pub timeline: TimelineDocument,
}

/// One archived segment, as stored for a multi-segment merge.
#[derive(Debug)]
pub struct ArchiveV4Segment {
    pub segment_seq: u64,
    pub archived_through_sequence_no: i64,
    pub document: ArchiveV4,
}

} // verus!
