//! The canonical, provider-independent air-quality sample.

use crate::pollutant::{KindMap, PollutantKind};
use vstd::prelude::*;

verus! {

/// A canonical air-quality sample: where, when, and the level of each
/// pollutant that was measured, in canonical units.
#[derive(Clone, Debug, PartialEq, Eq)]
pub struct Reading {
    /// The place the sample is for.
    pub location_key: String,
    /// When it was measured, or the time it forecasts, in seconds.
    pub timestamp: u64,
    /// The level of each pollutant that the sample carries.
    pub pollutant_levels: KindMap<u32>,
}

/// What a [`Reading`] holds, as mathematical values.
pub struct ReadingView {
    pub location_key: Seq<char>,
    pub timestamp: u64,
    pub pollutant_levels: Map<PollutantKind, u32>,
}

impl View for Reading {
    type V = ReadingView;

    open spec fn view(&self) -> ReadingView {
        ReadingView {
            location_key: self.location_key@,
            timestamp: self.timestamp,
            pollutant_levels: self.pollutant_levels@,
        }
    }
}

impl ReadingView {
    /// A reading is valid when it carries at least one pollutant level.
    pub open spec fn wf(self) -> bool {
        self.pollutant_levels != Map::<PollutantKind, u32>::empty()
    }
}

impl Reading {
    /// A reading is valid when it carries at least one pollutant level.
    pub open spec fn wf(&self) -> bool {
        self@.wf()
    }

    /// Builds a reading, or `None` where `pollutant_levels` is empty.
    pub fn new(location_key: String, timestamp: u64, pollutant_levels: KindMap<u32>) -> (r: Option<
        Reading,
    >)
        ensures
            r is None <==> pollutant_levels@ == Map::<PollutantKind, u32>::empty(),
            r matches Some(reading) ==> reading.wf() && reading@ == (ReadingView {
                location_key: location_key@,
                timestamp,
                pollutant_levels: pollutant_levels@,
            }),
    {
        if pollutant_levels.is_empty() {
            None
        } else {
            Some(Reading { location_key, timestamp, pollutant_levels })
        }
    }

    /// The level of `kind` in this reading, if it carries one.
    pub fn level(&self, kind: PollutantKind) -> (r: Option<u32>)
        ensures
            r == (if self@.pollutant_levels.contains_key(kind) {
                Some(self@.pollutant_levels[kind])
            } else {
                None
            }),
    {
        self.pollutant_levels.get(kind)
    }
}

} // verus!
