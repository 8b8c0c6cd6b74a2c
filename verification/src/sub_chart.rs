//! The single-slot store for the most recently received sub-chart payload.
//!
//! The slot is overwritten on every delivery, last write wins, and a read
//! before any write is a defined not-yet-available outcome rather than a
//! failure.

use vstd::prelude::*;

verus! {

/// The process-wide cache of the last sub-chart payload, carried explicitly
/// by the boundary operations instead of living in hidden global state.
#[derive(Debug)]
pub struct SubChartCache {
    slot: Option<String>,
}

impl SubChartCache {
    /// What the cache currently holds.
    pub closed spec fn model(self) -> Option<Seq<char>> {
        match self.slot {
            Some(s) => Some(s@),
            None => None,
        }
    }

    /// An empty cache: nothing delivered yet.
    pub fn new() -> (r: SubChartCache)
        ensures
            r.model() is None,
    {
        SubChartCache { slot: None }
    }

    /// Overwrite the slot with a newly delivered payload.
    pub fn store_sub_chart_data(&mut self, payload: String)
        ensures
            final(self).model() == Some(payload@),
    {
        self.slot = Some(payload);
    }

    /// The most recently stored payload, or `None` when none has arrived.
    pub fn load_sub_chart_data(&self) -> (r: Option<String>)
        ensures
            r is Some <==> self.model() is Some,
            r matches Some(s) ==> Some(s@) == self.model(),
    {
        match &self.slot {
            Some(s) => Some(s.clone()),
            None => None,
        }
    }
}

} // verus!
