//! The stats visitor: a read-only traversal agent that collects each
//! visited node's report into a fresh, name-keyed snapshot.

use vstd::prelude::*;

use crate::data_handler::DataConsumer;
use crate::data_handler::DataFilter;
use crate::data_handler::DataObserver;
use crate::data_handler::DataTransformer;
use crate::handlers::static_demuxer::PathPredicate;
use crate::node::Node;
use crate::node::NodeStatsModel;
use crate::node::NodeStatsReport;
use crate::node::report_model;

verus! {

/// Collects one [`NodeStatsReport`] per visited node, in visitation order.
/// The visitor is stateless between runs: build a fresh one per snapshot.
pub struct StatsNodeVisitor {
    pub all_stats: Vec<NodeStatsReport>,
}

impl StatsNodeVisitor {
    /// The mathematical value of the snapshot collected so far.
    pub open spec fn spec_models(self) -> Seq<NodeStatsModel> {
        self.all_stats@.map_values(|r: NodeStatsReport| report_model(r))
    }

    /// An empty snapshot.
    pub fn new() -> (r: Self)
        ensures
            r.spec_models() == Seq::<NodeStatsModel>::empty(),
    {
        let r = StatsNodeVisitor { all_stats: Vec::new() };
        proof {
            assert(r.spec_models() =~= Seq::<NodeStatsModel>::empty());
        }
        r
    }

    /// Record one node's report.  The node is only read.
    pub fn visit<T, O, X, F, C, P>(&mut self, node: &Node<T, O, X, F, C, P>) where
        O: DataObserver<T>,
        X: DataTransformer<T>,
        F: DataFilter<T>,
        C: DataConsumer<T>,
        P: PathPredicate<T>,

        ensures
            final(self).spec_models() == old(self).spec_models().push(node.spec_report()),
    {
        let report = node.get_stats();
        self.all_stats.push(report);
        proof {
            assert(self.spec_models() =~= old(self).spec_models().push(node.spec_report()));
        }
    }
}

impl Default for StatsNodeVisitor {
    /// Same as [`StatsNodeVisitor::new`]: an empty snapshot.
    fn default() -> (r: Self)
        ensures
            r.spec_models() == Seq::<NodeStatsModel>::empty(),
    {
        StatsNodeVisitor::new()
    }
}

} // verus!
