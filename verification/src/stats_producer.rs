//! The capability of a stage to report a snapshot of its internal counters.

use vstd::prelude::*;

verus! {

/// One named counter reported by a stage, e.g. `("num_logs", 17)`.
pub struct StageStat {
    pub key: String,
    pub value: u64,
}

/// The mathematical value of one reported counter: its key as a sequence of
/// characters together with the counter value.
pub open spec fn stage_stat_model(s: StageStat) -> (Seq<char>, u64) {
    (s.key@, s.value)
}

/// The mathematical value of an optional stats report.
pub open spec fn stage_stats_model(r: Option<Vec<StageStat>>) -> Option<Seq<(Seq<char>, u64)>> {
    match r {
        Some(v) => Some(v@.map_values(|s: StageStat| stage_stat_model(s))),
        None => None,
    }
}

/// A capability any stage can implement to expose an optional structured
/// snapshot of its internal counters.  `spec_stats` is the mathematical value
/// of the snapshot; `get_stats` must report exactly that value, so that
/// reporting stats is a pure function of the stage's state.
pub trait StatsProducer {
    /// The snapshot the stage reports, as a function of its state.
    spec fn spec_stats(&self) -> Option<Seq<(Seq<char>, u64)>>;

    /// Report the snapshot; `None` means the stage has nothing to report.
    fn get_stats(&self) -> (r: Option<Vec<StageStat>>)
        ensures
            stage_stats_model(r) == self.spec_stats(),
    ;
}

} // verus!
