//! Counters of the work done by a scan.
use vstd::prelude::*;

verus! {

/// Blocks processed, inscriptions found and processing time spent. Each
/// counter wraps around on overflow.
#[derive(Debug, Clone, Copy, PartialEq, Eq)]
pub struct Metrics {
    blocks_processed: u64,
    inscriptions_found: u64,
    processing_time_micros: u64,
}

impl Metrics {
    pub closed spec fn blocks(&self) -> u64 {
        self.blocks_processed
    }

    pub closed spec fn inscriptions(&self) -> u64 {
        self.inscriptions_found
    }

    pub closed spec fn micros(&self) -> u64 {
        self.processing_time_micros
    }

    /// All counters at zero.
    pub fn new() -> (r: Self)
        ensures
            r.blocks() == 0,
            r.inscriptions() == 0,
            r.micros() == 0,
    {
        Metrics { blocks_processed: 0, inscriptions_found: 0, processing_time_micros: 0 }
    }

    pub fn increment_blocks(&mut self, count: u64)
        ensures
            final(self).blocks() == old(self).blocks().wrapping_add(count),
            final(self).inscriptions() == old(self).inscriptions(),
            final(self).micros() == old(self).micros(),
    {
        self.blocks_processed = self.blocks_processed.wrapping_add(count);
    }

    pub fn increment_inscriptions(&mut self, count: u64)
        ensures
            final(self).inscriptions() == old(self).inscriptions().wrapping_add(count),
            final(self).blocks() == old(self).blocks(),
            final(self).micros() == old(self).micros(),
    {
        self.inscriptions_found = self.inscriptions_found.wrapping_add(count);
    }

    /// Adds a processing time given in microseconds.
    pub fn add_processing_time(&mut self, micros: u64)
        ensures
            final(self).micros() == old(self).micros().wrapping_add(micros),
            final(self).blocks() == old(self).blocks(),
            final(self).inscriptions() == old(self).inscriptions(),
    {
        self.processing_time_micros = self.processing_time_micros.wrapping_add(micros);
    }

    pub fn blocks_processed(&self) -> (r: u64)
        ensures
            r == self.blocks(),
    {
        self.blocks_processed
    }

    pub fn inscriptions_found(&self) -> (r: u64)
        ensures
            r == self.inscriptions(),
    {
        self.inscriptions_found
    }

    pub fn processing_time_micros(&self) -> (r: u64)
        ensures
            r == self.micros(),
    {
        self.processing_time_micros
    }
}

} // verus!
