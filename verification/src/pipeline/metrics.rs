//! Counters of a running pipeline.
use vstd::prelude::*;

verus! {

/// Counters of a running pipeline. They wrap around, as atomic counters do.
#[derive(Debug, Clone, Copy, PartialEq, Eq, Structural)]
pub struct PipelineMetrics {
    pub events_received: u64,
    pub events_processed: u64,
    /// Outputs that the sink reported as delivered.
    pub outputs_sent: u64,
    /// Outputs that the downstream system confirmed.
    pub outputs_acked: u64,
    pub checkpoints_written: u64,
    /// Events given up on.
    pub events_failed: u64,
    /// Outputs written again, counted once for each attempt.
    pub events_retried: u64,
    /// Entries appended to the proof-of-history chain.
    pub poh_entries: u64,
}

impl PipelineMetrics {
    /// All counters at zero.
    pub open spec fn zero() -> Self {
        PipelineMetrics {
            events_received: 0,
            events_processed: 0,
            outputs_sent: 0,
            outputs_acked: 0,
            checkpoints_written: 0,
            events_failed: 0,
            events_retried: 0,
            poh_entries: 0,
        }
    }

    pub fn new() -> (r: Self)
        ensures
            r == Self::zero(),
    {
        PipelineMetrics {
            events_received: 0,
            events_processed: 0,
            outputs_sent: 0,
            outputs_acked: 0,
            checkpoints_written: 0,
            events_failed: 0,
            events_retried: 0,
            poh_entries: 0,
        }
    }

    /// Counts outputs that the downstream system confirmed.
    pub fn ack(&mut self, n: usize)
        ensures
            *final(self) == (PipelineMetrics {
                outputs_acked: old(self).outputs_acked.wrapping_add(n as u64),
                ..*old(self)
            }),
    {
        self.outputs_acked = self.outputs_acked.wrapping_add(n as u64);
    }
}

impl Default for PipelineMetrics {
    fn default() -> (r: Self)
        ensures
            r == Self::zero(),
    {
        PipelineMetrics::new()
    }
}

/// Counting begins at nothing.
pub proof fn law_counting_begins_at_nothing(m: PipelineMetrics)
    requires
        m == PipelineMetrics::zero(),
    ensures
        m.events_received == 0 && m.events_processed == 0 && m.outputs_sent == 0,
        m.outputs_acked == 0 && m.checkpoints_written == 0 && m.events_failed == 0,
        m.events_retried == 0 && m.poh_entries == 0,
{
}

} // verus!
