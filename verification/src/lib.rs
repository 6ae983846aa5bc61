//! Decoder and phrase segmenter for line-oriented, section-delimited song
//! chart files.
//!
//! The crate is split in two layers. `chart` decodes the raw text of a chart
//! file into typed event streams (properties, tempo map, lyric events,
//! key-press tracks). `phrases` groups the lyric events of the main and duet
//! vocal tracks into timestamp-bounded phrases ready for display.

use vstd::prelude::*;

pub mod chart;
pub mod lines;
pub mod phrases;
pub mod scan;
pub mod strmap;

verus! {

/// An event that carries a tick timestamp, the sole ordering key shared by
/// every event stream of a chart.
pub trait TimestampedEvent {
    /// The timestamp of the event, for use in specifications.
    spec fn timestamp(&self) -> u32;

    /// Returns the timestamp of the event.
    fn get_timestamp(&self) -> (t: u32)
        ensures
            t == self.timestamp(),
    ;
}

} // verus!
