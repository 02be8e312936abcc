//! A pipeline node: one stage, a name, running counters, and an optional
//! link to a successor node.  `process_data` is the per-item dispatch state
//! machine; each call resolves to exactly one of five outcomes.

use vstd::prelude::*;

use crate::data_handler::DataConsumer;
use crate::data_handler::DataFilter;
use crate::data_handler::DataObserver;
use crate::data_handler::DataTransformer;
use crate::data_handler::SomeDataHandler;
use crate::data_handler::TransformError;
use crate::handlers::static_demuxer::ConditionalPath;
use crate::handlers::static_demuxer::PathPredicate;
use crate::handlers::static_demuxer::StaticDemuxer;
use crate::node_visitor::StatsNodeVisitor;
use crate::stats_producer::StatsProducer;
use crate::stats_producer::stage_stats_model;
use crate::stats_producer::StageStat;

verus! {

/// Running counters of one node.  The cumulative processing time is kept in
/// whole microseconds and saturates instead of wrapping.
pub struct NodeStatsTracker {
    pub data_ingress: u64,
    pub data_egress: u64,
    pub data_discarded: u64,
    pub errors: u64,
    pub total_processing_time: u64,
}

impl NodeStatsTracker {
    /// The counters of a node that has not seen any item yet.
    pub open spec fn zeroed() -> NodeStatsTracker {
        NodeStatsTracker {
            data_ingress: 0,
            data_egress: 0,
            data_discarded: 0,
            errors: 0,
            total_processing_time: 0,
        }
    }
}

impl Default for NodeStatsTracker {
    /// All counters start at zero.
    fn default() -> (r: Self)
        ensures
            r == NodeStatsTracker::zeroed(),
    {
        NodeStatsTracker {
            data_ingress: 0,
            data_egress: 0,
            data_discarded: 0,
            errors: 0,
            total_processing_time: 0,
        }
    }
}

/// How the counters of a node change when it handles one item: ingress grows
/// by one, exactly one of egress / discarded / errors grows by the given
/// amount, and the cumulative processing time never shrinks.
pub open spec fn stats_step(
    pre: NodeStatsTracker,
    post: NodeStatsTracker,
    egress: int,
    discarded: int,
    errors: int,
) -> bool {
    &&& post.data_ingress == pre.data_ingress + 1
    &&& post.data_egress == pre.data_egress + egress
    &&& post.data_discarded == pre.data_discarded + discarded
    &&& post.errors == pre.errors + errors
    &&& post.total_processing_time >= pre.total_processing_time
}

/// A transform failure surfaced to the host: which node failed and the
/// underlying cause.  Failures never propagate as faults; the item is
/// dropped, the error counter grows, and this report is handed back.
pub struct ProcessError {
    pub node_name: String,
    pub message: String,
}

/// The possible outcomes of passing one item to a node's stage.
enum SomeDataHandlerResult<T> {
    /// The item should be forwarded to the successor node.
    ForwardToNext(T),
    /// The item should be forwarded to the branch at the given path index.
    ForwardTo(T, usize),
    /// The item was consumed by a terminal stage.
    Consumed,
    /// The item should be discarded.
    Discard,
    /// The stage failed; the item is dropped.
    Failed(TransformError),
}

/// One stage in the chain: a stage handler, a name used as the stats key,
/// running counters, and an optional successor link.
pub struct Node<T, O, X, F, C, P> {
    pub name: String,
    pub handler: SomeDataHandler<T, O, X, F, C, P>,
    pub stats: NodeStatsTracker,
    pub next: Option<Box<Node<T, O, X, F, C, P>>>,
}

impl<T, O, X, F, C, P> Node<T, O, X, F, C, P> {
    /// A fresh node: zeroed counters and no successor.
    pub fn new(name: String, handler: SomeDataHandler<T, O, X, F, C, P>) -> (r: Self)
        ensures
            r.name == name,
            r.handler == handler,
            r.stats == NodeStatsTracker::zeroed(),
            r.next is None,
    {
        Self { name, handler, stats: Default::default(), next: None }
    }

    pub fn name(&self) -> (r: &str)
        ensures
            r@ == self.name@,
    {
        self.name.as_str()
    }

    /// Wire the successor link.  Links are set at assembly time, before any
    /// item is processed, and never altered afterwards.
    pub fn set_next(&mut self, next: Self)
        ensures
            final(self).name == old(self).name,
            final(self).handler == old(self).handler,
            final(self).stats == old(self).stats,
            final(self).next matches Some(b) && *b == next,
    {
        self.next = Some(Box::new(next));
    }
}

impl<T, O, X, F, C, P> Node<T, O, X, F, C, P> where
    O: DataObserver<T>,
    X: DataTransformer<T>,
    F: DataFilter<T>,
    C: DataConsumer<T>,
    P: PathPredicate<T>,
{
    /// How many of the items that entered this node were consumed here: a
    /// terminal consumer consumes everything that enters it and touches no
    /// other counter, every other stage consumes nothing.
    pub open spec fn spec_consumed_count(self) -> int {
        if self.handler is Consumer {
            self.stats.data_ingress as int
        } else {
            0
        }
    }

    /// The counter accounting invariant, for this node and every node below
    /// it (successors and demultiplexer branches): every item that entered
    /// left exactly one way, so
    /// `ingress == egress + discarded + errors + consumed`.
    pub open spec fn counters_ok(self) -> bool
        decreases self,
    {
        &&& self.stats.data_ingress == self.stats.data_egress + self.stats.data_discarded
            + self.stats.errors + self.spec_consumed_count()
        &&& match self.next {
            Some(n) => (*n).counters_ok(),
            None => true,
        }
        &&& match self.handler {
            SomeDataHandler::Demuxer(d) => forall|i: int|
                0 <= i < d.paths@.len() ==> (#[trigger] d.paths@[i]).next.counters_ok(),
            _ => true,
        }
    }

    /// Every counter of every node of this pipeline is at most `b`.
    pub open spec fn counters_le(self, b: int) -> bool
        decreases self,
    {
        &&& self.stats.data_ingress <= b
        &&& self.stats.data_egress <= b
        &&& self.stats.data_discarded <= b
        &&& self.stats.errors <= b
        &&& match self.next {
            Some(n) => (*n).counters_le(b),
            None => true,
        }
        &&& match self.handler {
            SomeDataHandler::Demuxer(d) => forall|i: int|
                0 <= i < d.paths@.len() ==> (#[trigger] d.paths@[i]).next.counters_le(b),
            _ => true,
        }
    }

    /// What one call of `process_data` does: how the node's counters change,
    /// which stage decision was taken, which node below (the successor, or
    /// the first matching demultiplexer branch) handled the item next, and
    /// that the stage itself received the item -- its state after the call
    /// satisfies the stage's own post-state relation for that item.
    pub open spec fn process_step(pre: Self, post: Self, data: T) -> bool
        decreases pre,
    {
        &&& post.name == pre.name
        &&& match pre.handler {
            SomeDataHandler::Observer(o) => {
                &&& post.handler matches SomeDataHandler::Observer(o2) && o.spec_observed(
                    data,
                    o2,
                )
                &&& stats_step(pre.stats, post.stats, 1, 0, 0)
                &&& Self::forward_step(pre.next, post.next, data)
            },
            SomeDataHandler::Transformer(t) => match t.spec_transform(data) {
                Ok(out) => {
                    &&& post.handler matches SomeDataHandler::Transformer(t2)
                        && t.spec_transformed(data, t2)
                    &&& stats_step(pre.stats, post.stats, 1, 0, 0)
                    &&& Self::forward_step(pre.next, post.next, out)
                },
                Err(_) => {
                    &&& post.handler matches SomeDataHandler::Transformer(t2)
                        && t.spec_transformed(data, t2)
                    &&& stats_step(pre.stats, post.stats, 0, 0, 1)
                    &&& post.next == pre.next
                },
            },
            SomeDataHandler::Filter(f) => {
                if f.spec_should_forward(data) {
                    &&& post.handler matches SomeDataHandler::Filter(f2) && f.spec_filtered(
                        data,
                        f2,
                    )
                    &&& stats_step(pre.stats, post.stats, 1, 0, 0)
                    &&& Self::forward_step(pre.next, post.next, data)
                } else {
                    &&& post.handler matches SomeDataHandler::Filter(f2) && f.spec_filtered(
                        data,
                        f2,
                    )
                    &&& stats_step(pre.stats, post.stats, 0, 1, 0)
                    &&& post.next == pre.next
                }
            },
            SomeDataHandler::Consumer(c) => {
                &&& post.handler matches SomeDataHandler::Consumer(c2) && c.spec_consumed(
                    data,
                    c2,
                )
                &&& stats_step(pre.stats, post.stats, 0, 0, 0)
                &&& post.next == pre.next
            },
            SomeDataHandler::Demuxer(d) => {
                &&& post.next == pre.next
                &&& match post.handler {
                    SomeDataHandler::Demuxer(d2) => match StaticDemuxer::spec_find_path(
                        d.paths@,
                        data,
                    ) {
                        Some(i) => {
                            if 0 <= i < d.paths@.len() {
                                &&& stats_step(pre.stats, post.stats, 1, 0, 0)
                                &&& d2.paths@.len() == d.paths@.len()
                                &&& forall|j: int|
                                    0 <= j < d.paths@.len() && j != i ==> d2.paths@[j] == (
                                    #[trigger] d.paths@[j])
                                &&& d2.paths@[i].predicate == d.paths@[i].predicate
                                &&& Self::process_step(d.paths@[i].next, d2.paths@[i].next, data)
                            } else {
                                false
                            }
                        },
                        None => {
                            &&& stats_step(pre.stats, post.stats, 0, 1, 0)
                            &&& post.handler == pre.handler
                        },
                    },
                    _ => false,
                }
            },
        }
    }

    /// Forwarding an item past a node: with no successor the item is
    /// silently dropped (not a discard); with a successor, the successor
    /// processed the item.
    pub open spec fn forward_step(
        pre_next: Option<Box<Self>>,
        post_next: Option<Box<Self>>,
        data: T,
    ) -> bool
        decreases pre_next,
    {
        match pre_next {
            None => post_next is None,
            Some(n) => match post_next {
                Some(m) => Self::process_step(*n, *m, data),
                None => false,
            },
        }
    }

    /// The failure, if any, that one call of `process_data` reports: the
    /// name of the node whose transformer failed, with the failure message.
    /// At most one stage can fail per item, since the item is dropped there.
    pub open spec fn spec_process_error(pre: Self, data: T) -> Option<(Seq<char>, Seq<char>)>
        decreases pre,
    {
        match pre.handler {
            SomeDataHandler::Observer(_) => Self::spec_forward_error(pre.next, data),
            SomeDataHandler::Transformer(t) => match t.spec_transform(data) {
                Ok(out) => Self::spec_forward_error(pre.next, out),
                Err(m) => Some((pre.name@, m)),
            },
            SomeDataHandler::Filter(f) => {
                if f.spec_should_forward(data) {
                    Self::spec_forward_error(pre.next, data)
                } else {
                    None
                }
            },
            SomeDataHandler::Consumer(_) => None,
            SomeDataHandler::Demuxer(d) => match StaticDemuxer::spec_find_path(d.paths@, data) {
                Some(i) => {
                    if 0 <= i < d.paths@.len() {
                        Self::spec_process_error(d.paths@[i].next, data)
                    } else {
                        None
                    }
                },
                None => None,
            },
        }
    }

    /// The failure reported past the end of a node: none when there is no
    /// successor.
    pub open spec fn spec_forward_error(pre_next: Option<Box<Self>>, data: T) -> Option<
        (Seq<char>, Seq<char>),
    >
        decreases pre_next,
    {
        match pre_next {
            None => None,
            Some(n) => Self::spec_process_error(*n, data),
        }
    }

    /// Run one item through this node and everything reachable below it,
    /// synchronously, updating the counters as the dispatch state machine
    /// resolves.  Returns the transform failure report if a stage failed;
    /// failures never propagate as faults, so this call always returns.
    pub fn process_data(&mut self, data: T) -> (r: Option<ProcessError>)
        requires
            old(self).counters_le(u64::MAX - 1),
        ensures
            Self::process_step(*old(self), *final(self), data),
            match r {
                Some(e) => Self::spec_process_error(*old(self), data) == Some(
                    (e.node_name@, e.message@),
                ),
                None => Self::spec_process_error(*old(self), data) is None,
            },
        decreases *old(self),
    {
        self.stats.data_ingress = self.stats.data_ingress + 1;
        let start = instant_now();
        let outcome = match &mut self.handler {
            SomeDataHandler::Observer(o) => {
                o.observe(&data);
                SomeDataHandlerResult::ForwardToNext(data)
            },
            SomeDataHandler::Transformer(t) => match t.transform(data) {
                Ok(out) => SomeDataHandlerResult::ForwardToNext(out),
                Err(e) => SomeDataHandlerResult::Failed(e),
            },
            SomeDataHandler::Filter(f) => {
                if f.should_forward(&data) {
                    SomeDataHandlerResult::ForwardToNext(data)
                } else {
                    SomeDataHandlerResult::Discard
                }
            },
            SomeDataHandler::Consumer(c) => {
                c.consume(data);
                SomeDataHandlerResult::Consumed
            },
            SomeDataHandler::Demuxer(d) => match d.find_path(&data) {
                Some(i) => SomeDataHandlerResult::ForwardTo(data, i),
                None => SomeDataHandlerResult::Discard,
            },
        };
        let elapsed = elapsed_micros(&start);
        self.stats.total_processing_time = saturating_add_u64(
            self.stats.total_processing_time,
            elapsed,
        );
        let ghost pre = *old(self);
        match outcome {
            SomeDataHandlerResult::ForwardToNext(p) => {
                self.stats.data_egress = self.stats.data_egress + 1;
                let r = match &mut self.next {
                    Some(n) => n.process_data(p),
                    None => None,
                };
                proof {
                    assert(Self::forward_step(pre.next, self.next, p));
                    if pre.next is Some {
                        assert(Self::spec_forward_error(pre.next, p) == Self::spec_process_error(
                            *pre.next->0,
                            p,
                        ));
                    } else {
                        assert(Self::spec_forward_error(pre.next, p) is None);
                    }
                    assert(Self::spec_process_error(pre, data) == Self::spec_forward_error(
                        pre.next,
                        p,
                    ));
                    assert(Self::process_step(pre, *self, data));
                }
                r
            },
            SomeDataHandlerResult::ForwardTo(p, i) => {
                self.stats.data_egress = self.stats.data_egress + 1;
                match &mut self.handler {
                    SomeDataHandler::Demuxer(d) => {
                        proof {
                            StaticDemuxer::lemma_find_path_first_match(d.paths@, p);
                        }
                        let path = &mut d.paths[i];
                        let r = path.next.process_data(p);
                        proof {
                            if let SomeDataHandler::Demuxer(dpre) = pre.handler {
                                assert(Self::spec_process_error(pre, data)
                                    == Self::spec_process_error(dpre.paths@[i as int].next, data));
                            }
                            assert(Self::process_step(pre, *self, data));
                        }
                        r
                    },
                    _ => {
                        assert(false);
                        None
                    },
                }
            },
            SomeDataHandlerResult::Consumed => None,
            SomeDataHandlerResult::Discard => {
                self.stats.data_discarded = self.stats.data_discarded + 1;
                None
            },
            SomeDataHandlerResult::Failed(e) => {
                self.stats.errors = self.stats.errors + 1;
                proof {
                    assert(Self::spec_process_error(pre, data) == Some((pre.name@, e.message@)));
                }
                Some(ProcessError { node_name: self.name.clone(), message: e.message })
            },
        }
    }

    /// What a filter stage does to one item: the item is forwarded if and
    /// only if the predicate holds of it, the item itself is never altered,
    /// and the counters record the decision exactly once -- one egress and
    /// one successor ingress on `true`, one discard on `false`, never both,
    /// never doubled.
    pub proof fn lemma_filter_step(pre: Self, post: Self, data: T, f: F)
        requires
            Self::process_step(pre, post, data),
            pre.handler == SomeDataHandler::<T, O, X, F, C, P>::Filter(f),
        ensures
            post.stats.data_ingress == pre.stats.data_ingress + 1,
            post.stats.errors == pre.stats.errors,
            f.spec_should_forward(data) ==> {
                &&& post.stats.data_egress == pre.stats.data_egress + 1
                &&& post.stats.data_discarded == pre.stats.data_discarded
            },
            !f.spec_should_forward(data) ==> {
                &&& post.stats.data_egress == pre.stats.data_egress
                &&& post.stats.data_discarded == pre.stats.data_discarded + 1
                &&& post.next == pre.next
            },
            f.spec_should_forward(data) && pre.next is Some ==> {
                &&& post.next is Some
                &&& Self::process_step(*pre.next->0, *post.next->0, data)
                &&& (*post.next->0).stats.data_ingress == (*pre.next->0).stats.data_ingress + 1
            },
    {
        if f.spec_should_forward(data) {
            assert(Self::forward_step(pre.next, post.next, data));
            if pre.next is Some {
                assert(Self::process_step(*pre.next->0, *post.next->0, data));
            }
        }
    }

    /// What a demultiplexer stage does to one item: the item goes to the
    /// first path whose predicate matches, in list order -- that branch's
    /// head sees its ingress grow by one, every other branch is untouched --
    /// and an item matching no path is discarded without reaching any
    /// branch.
    pub proof fn lemma_demux_step(
        pre: Self,
        post: Self,
        data: T,
        d: StaticDemuxer<T, O, X, F, C, P>,
    )
        requires
            Self::process_step(pre, post, data),
            pre.handler == SomeDataHandler::<T, O, X, F, C, P>::Demuxer(d),
        ensures
            post.stats.data_ingress == pre.stats.data_ingress + 1,
            post.stats.errors == pre.stats.errors,
            match StaticDemuxer::spec_find_path(d.paths@, data) {
                Some(i) => {
                    &&& 0 <= i < d.paths@.len()
                    &&& d.paths@[i].predicate.spec_matches(data)
                    &&& forall|j: int|
                        0 <= j < i ==> !(#[trigger] d.paths@[j]).predicate.spec_matches(data)
                    &&& post.stats.data_egress == pre.stats.data_egress + 1
                    &&& post.stats.data_discarded == pre.stats.data_discarded
                    &&& post.handler matches SomeDataHandler::Demuxer(d2) && {
                        &&& d2.paths@.len() == d.paths@.len()
                        &&& Self::process_step(d.paths@[i].next, d2.paths@[i].next, data)
                        &&& d2.paths@[i].next.stats.data_ingress == d.paths@[i].next
                            .stats.data_ingress + 1
                        &&& forall|j: int|
                            0 <= j < d.paths@.len() && j != i ==> d2.paths@[j] == (
                            #[trigger] d.paths@[j])
                    }
                },
                None => {
                    &&& forall|j: int|
                        0 <= j < d.paths@.len() ==> !(#[trigger] d.paths@[j])
                            .predicate.spec_matches(data)
                    &&& post.stats.data_egress == pre.stats.data_egress
                    &&& post.stats.data_discarded == pre.stats.data_discarded + 1
                    &&& post.handler == pre.handler
                },
            },
    {
        StaticDemuxer::lemma_find_path_first_match(d.paths@, data);
        match StaticDemuxer::spec_find_path(d.paths@, data) {
            Some(i) => {
                match post.handler {
                    SomeDataHandler::Demuxer(d2) => {
                        assert(Self::process_step(d.paths@[i].next, d2.paths@[i].next, data));
                    },
                    _ => {},
                }
            },
            None => {},
        }
    }

    /// Every node's counter accounting survives processing an item: if
    /// `ingress == egress + discarded + errors + consumed` held of every
    /// node before the call, it holds of every node afterwards.
    pub proof fn lemma_process_preserves_counters_ok(pre: Self, post: Self, data: T)
        requires
            Self::process_step(pre, post, data),
            pre.counters_ok(),
        ensures
            post.counters_ok(),
        decreases pre,
    {
        match pre.handler {
            SomeDataHandler::Observer(_) => {
                assert(Self::forward_step(pre.next, post.next, data));
                if pre.next is Some {
                    assert(Self::process_step(*pre.next->0, *post.next->0, data));
                    Self::lemma_process_preserves_counters_ok(
                        *pre.next->0,
                        *post.next->0,
                        data,
                    );
                }
            },
            SomeDataHandler::Transformer(t) => match t.spec_transform(data) {
                Ok(out) => {
                    assert(Self::forward_step(pre.next, post.next, out));
                    if pre.next is Some {
                        assert(Self::process_step(*pre.next->0, *post.next->0, out));
                        Self::lemma_process_preserves_counters_ok(
                            *pre.next->0,
                            *post.next->0,
                            out,
                        );
                    }
                },
                Err(_) => {},
            },
            SomeDataHandler::Filter(f) => {
                if f.spec_should_forward(data) {
                    assert(Self::forward_step(pre.next, post.next, data));
                    if pre.next is Some {
                        assert(Self::process_step(*pre.next->0, *post.next->0, data));
                        Self::lemma_process_preserves_counters_ok(
                            *pre.next->0,
                            *post.next->0,
                            data,
                        );
                    }
                }
            },
            SomeDataHandler::Consumer(_) => {},
            SomeDataHandler::Demuxer(d) => match post.handler {
                SomeDataHandler::Demuxer(d2) => {
                    match StaticDemuxer::spec_find_path(d.paths@, data) {
                        Some(i) => {
                            if 0 <= i < d.paths@.len() {
                                assert(Self::process_step(
                                    d.paths@[i].next,
                                    d2.paths@[i].next,
                                    data,
                                ));
                                Self::lemma_process_preserves_counters_ok(
                                    d.paths@[i].next,
                                    d2.paths@[i].next,
                                    data,
                                );
                                assert forall|j: int|
                                    0 <= j < d2.paths@.len() implies (#[trigger] d2.paths@[j])
                                    .next.counters_ok() by {
                                    if j != i {
                                        assert(d2.paths@[j] == d.paths@[j]);
                                    }
                                }
                            }
                        },
                        None => {
                            assert(post.handler == pre.handler);
                        },
                    }
                },
                _ => {},
            },
        }
    }

    /// Processing one item grows each counter of each node by at most one:
    /// if every counter was at most `b` before the call, every counter is at
    /// most `b + 1` afterwards.  Feeding `k` items into a fresh pipeline
    /// therefore leaves every counter at most `k`.
    pub proof fn lemma_process_counters_le(pre: Self, post: Self, data: T, b: int)
        requires
            Self::process_step(pre, post, data),
            pre.counters_le(b),
        ensures
            post.counters_le(b + 1),
        decreases pre,
    {
        match pre.handler {
            SomeDataHandler::Observer(_) => {
                assert(Self::forward_step(pre.next, post.next, data));
                if pre.next is Some {
                    assert(Self::process_step(*pre.next->0, *post.next->0, data));
                    Self::lemma_process_counters_le(*pre.next->0, *post.next->0, data, b);
                }
            },
            SomeDataHandler::Transformer(t) => match t.spec_transform(data) {
                Ok(out) => {
                    assert(Self::forward_step(pre.next, post.next, out));
                    if pre.next is Some {
                        assert(Self::process_step(*pre.next->0, *post.next->0, out));
                        Self::lemma_process_counters_le(*pre.next->0, *post.next->0, out, b);
                    }
                },
                Err(_) => {
                    if pre.next is Some {
                        Self::lemma_counters_le_weaken(*pre.next->0, b, b + 1);
                    }
                },
            },
            SomeDataHandler::Filter(f) => {
                if f.spec_should_forward(data) {
                    assert(Self::forward_step(pre.next, post.next, data));
                    if pre.next is Some {
                        assert(Self::process_step(*pre.next->0, *post.next->0, data));
                        Self::lemma_process_counters_le(*pre.next->0, *post.next->0, data, b);
                    }
                } else {
                    if pre.next is Some {
                        Self::lemma_counters_le_weaken(*pre.next->0, b, b + 1);
                    }
                }
            },
            SomeDataHandler::Consumer(_) => {
                if pre.next is Some {
                    Self::lemma_counters_le_weaken(*pre.next->0, b, b + 1);
                }
            },
            SomeDataHandler::Demuxer(d) => match post.handler {
                SomeDataHandler::Demuxer(d2) => {
                    if pre.next is Some {
                        Self::lemma_counters_le_weaken(*pre.next->0, b, b + 1);
                    }
                    match StaticDemuxer::spec_find_path(d.paths@, data) {
                        Some(i) => {
                            if 0 <= i < d.paths@.len() {
                                assert(Self::process_step(
                                    d.paths@[i].next,
                                    d2.paths@[i].next,
                                    data,
                                ));
                                Self::lemma_process_counters_le(
                                    d.paths@[i].next,
                                    d2.paths@[i].next,
                                    data,
                                    b,
                                );
                                assert forall|j: int|
                                    0 <= j < d2.paths@.len() implies (#[trigger] d2.paths@[j])
                                    .next.counters_le(b + 1) by {
                                    if j != i {
                                        assert(d2.paths@[j] == d.paths@[j]);
                                        Self::lemma_counters_le_weaken(
                                            d2.paths@[j].next,
                                            b,
                                            b + 1,
                                        );
                                    }
                                }
                            }
                        },
                        None => {
                            assert(post.handler == pre.handler);
                            assert forall|j: int|
                                0 <= j < d2.paths@.len() implies (#[trigger] d2.paths@[j])
                                .next.counters_le(b + 1) by {
                                assert(d2.paths@[j] == d.paths@[j]);
                                Self::lemma_counters_le_weaken(
                                    d2.paths@[j].next,
                                    b,
                                    b + 1,
                                );
                            }
                        },
                    }
                },
                _ => {},
            },
        }
    }

    /// A counter bound is monotone: a pipeline whose counters are all at
    /// most `b` also has them all at most any `c >= b`.
    pub proof fn lemma_counters_le_weaken(n: Self, b: int, c: int)
        requires
            n.counters_le(b),
            b <= c,
        ensures
            n.counters_le(c),
        decreases n,
    {
        if n.next is Some {
            Self::lemma_counters_le_weaken(*n.next->0, b, c);
        }
        match n.handler {
            SomeDataHandler::Demuxer(d) => {
                assert forall|i: int|
                    0 <= i < d.paths@.len() implies (#[trigger] d.paths@[i]).next.counters_le(
                    c,
                ) by {
                    Self::lemma_counters_le_weaken(d.paths@[i].next, b, c);
                }
            },
            _ => {},
        }
    }
}


/// The stats one node reports when visited: its name, its raw counters, the
/// derived per-item processing time, and whatever its stage reports.
pub struct NodeStatsReport {
    pub name: String,
    pub data_ingress: u64,
    pub data_egress: u64,
    pub data_discarded: u64,
    pub errors: u64,
    pub total_processing_time: u64,
    pub process_time_per_item: u64,
    pub handler_stats: Option<Vec<StageStat>>,
}

/// The mathematical value of a [`NodeStatsReport`].
pub struct NodeStatsModel {
    pub name: Seq<char>,
    pub data_ingress: u64,
    pub data_egress: u64,
    pub data_discarded: u64,
    pub errors: u64,
    pub total_processing_time: u64,
    pub process_time_per_item: u64,
    pub handler_stats: Option<Seq<(Seq<char>, u64)>>,
}

pub open spec fn report_model(r: NodeStatsReport) -> NodeStatsModel {
    NodeStatsModel {
        name: r.name@,
        data_ingress: r.data_ingress,
        data_egress: r.data_egress,
        data_discarded: r.data_discarded,
        errors: r.errors,
        total_processing_time: r.total_processing_time,
        process_time_per_item: r.process_time_per_item,
        handler_stats: stage_stats_model(r.handler_stats),
    }
}

impl<T, O, X, F, C, P> Node<T, O, X, F, C, P> where
    O: DataObserver<T>,
    X: DataTransformer<T>,
    F: DataFilter<T>,
    C: DataConsumer<T>,
    P: PathPredicate<T>,
{
    /// The stats this node reports, as a function of its state.  The
    /// per-item processing time is the cumulative duration divided by the
    /// ingress count, and zero for a node that has not received any item:
    /// computing it is safe whatever the counters hold.
    pub open spec fn spec_report(self) -> NodeStatsModel {
        NodeStatsModel {
            name: self.name@,
            data_ingress: self.stats.data_ingress,
            data_egress: self.stats.data_egress,
            data_discarded: self.stats.data_discarded,
            errors: self.stats.errors,
            total_processing_time: self.stats.total_processing_time,
            process_time_per_item: if self.stats.data_ingress == 0 {
                0u64
            } else {
                ((self.stats.total_processing_time as int) / (
                self.stats.data_ingress as int)) as u64
            },
            handler_stats: self.handler.spec_stats(),
        }
    }

    /// Assemble this node's report.  Reading stats never mutates anything:
    /// the receiver is shared, and the result is a pure function of the
    /// node's state.
    pub fn get_stats(&self) -> (r: NodeStatsReport)
        ensures
            report_model(r) == self.spec_report(),
    {
        let per_item: u64 = if self.stats.data_ingress == 0 {
            0
        } else {
            self.stats.total_processing_time / self.stats.data_ingress
        };
        NodeStatsReport {
            name: self.name.clone(),
            data_ingress: self.stats.data_ingress,
            data_egress: self.stats.data_egress,
            data_discarded: self.stats.data_discarded,
            errors: self.stats.errors,
            total_processing_time: self.stats.total_processing_time,
            process_time_per_item: per_item,
            handler_stats: self.handler.get_stats(),
        }
    }

    /// How many nodes this pipeline holds: this node, every node of every
    /// demultiplexer branch, and everything down the successor chain.
    pub open spec fn node_count(self) -> nat
        decreases self, 0int,
    {
        1 + (match self.handler {
            SomeDataHandler::Demuxer(d) => Self::paths_node_count(
                d.paths@,
                d.paths@.len() as int,
            ),
            _ => 0,
        }) + (match self.next {
            Some(n) => (*n).node_count(),
            None => 0,
        })
    }

    /// The node count of the first `k` branches of a path list.
    pub open spec fn paths_node_count(paths: Seq<ConditionalPath<P, Self>>, k: int) -> nat
        decreases paths, k,
    {
        if k <= 0 || k > paths.len() {
            0
        } else {
            Self::paths_node_count(paths, k - 1) + paths[k - 1].next.node_count()
        }
    }

    /// The snapshot a visitation of this pipeline produces: this node's
    /// report first, then every demultiplexer branch in path-list order,
    /// then the successor chain -- a pre-order, depth-first traversal.
    pub open spec fn spec_snapshot(self) -> Seq<NodeStatsModel>
        decreases self, 0int,
    {
        seq![self.spec_report()] + (match self.handler {
            SomeDataHandler::Demuxer(d) => Self::paths_snapshot(d.paths@, d.paths@.len() as int),
            _ => Seq::empty(),
        }) + (match self.next {
            Some(n) => (*n).spec_snapshot(),
            None => Seq::empty(),
        })
    }

    /// The snapshots of the first `k` branches of a path list, concatenated
    /// in path-list order.
    pub open spec fn paths_snapshot(paths: Seq<ConditionalPath<P, Self>>, k: int) -> Seq<
        NodeStatsModel,
    >
        decreases paths, k,
    {
        if k <= 0 || k > paths.len() {
            Seq::empty()
        } else {
            Self::paths_snapshot(paths, k - 1) + paths[k - 1].next.spec_snapshot()
        }
    }

    /// Visiting reaches every node: the snapshot holds exactly one entry per
    /// node of the pipeline, demultiplexer branches included, not merely the
    /// nodes reachable via successor links.
    pub proof fn lemma_snapshot_covers_all_nodes(n: Self)
        ensures
            n.spec_snapshot().len() == n.node_count(),
        decreases n, 0int,
    {
        match n.handler {
            SomeDataHandler::Demuxer(d) => {
                Self::lemma_paths_snapshot_len(d.paths@, d.paths@.len() as int);
            },
            _ => {},
        }
        if n.next is Some {
            Self::lemma_snapshot_covers_all_nodes(*n.next->0);
        }
    }

    /// The branch part of a snapshot holds one entry per branch node.
    pub proof fn lemma_paths_snapshot_len(paths: Seq<ConditionalPath<P, Self>>, k: int)
        ensures
            Self::paths_snapshot(paths, k).len() == Self::paths_node_count(paths, k),
        decreases paths, k,
    {
        if 0 < k <= paths.len() {
            Self::lemma_paths_snapshot_len(paths, k - 1);
            Self::lemma_snapshot_covers_all_nodes(paths[k - 1].next);
        }
    }

    /// Drive a stats visitor through this node and everything below it:
    /// this node first, then (for a demultiplexer) every branch in
    /// path-list order, then the successor chain.  Visiting is read-only --
    /// the pipeline is borrowed shared, so no counter can move -- and two
    /// visitations of the same pipeline append identical snapshots.
    pub fn visit(&self, visitor: &mut StatsNodeVisitor)
        ensures
            final(visitor).spec_models() == old(visitor).spec_models() + self.spec_snapshot(),
        decreases *self,
    {
        let ghost base = visitor.spec_models();
        visitor.visit(self);
        if let SomeDataHandler::Demuxer(d) = &self.handler {
            d.visit(visitor);
        }
        if let Some(n) = &self.next {
            n.visit(visitor);
        }
        proof {
            assert(visitor.spec_models() =~= base + self.spec_snapshot());
        }
    }
}

#[verifier::external_type_specification]
#[verifier::external_body]
pub struct ExInstant(std::time::Instant);

/// Relies on std::time::Instant::now: an opaque monotonic timestamp.  The
/// value depends on the clock, so nothing is assumed of it.
#[verifier::external_body]
fn instant_now() -> std::time::Instant {
    std::time::Instant::now()
}

/// Relies on std::time::Instant::elapsed; the resulting span is converted
/// to whole microseconds (Duration::as_micros, truncated to 64 bits).  The
/// value depends on the clock, so nothing is assumed of it.
#[verifier::external_body]
fn elapsed_micros(start: &std::time::Instant) -> u64 {
    start.elapsed().as_micros() as u64
}

/// Add a measured duration to a cumulative counter, saturating at the
/// maximum instead of wrapping.
fn saturating_add_u64(a: u64, b: u64) -> (r: u64)
    ensures
        a + b <= u64::MAX ==> r == a + b,
        a + b > u64::MAX ==> r == u64::MAX,
{
    if b <= u64::MAX - a {
        a + b
    } else {
        u64::MAX
    }
}

} // verus!
