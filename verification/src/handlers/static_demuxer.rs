//! A demultiplexer whose conditional paths are fixed and known at creation
//! time.  It routes each item to the first path whose predicate matches, in
//! list order, and owns the branch sub-pipelines outright.

use vstd::prelude::*;

use crate::data_handler::DataConsumer;
use crate::data_handler::DataFilter;
use crate::data_handler::DataObserver;
use crate::data_handler::DataTransformer;
use crate::node::Node;
use crate::node_visitor::StatsNodeVisitor;
use crate::stats_producer::StageStat;
use crate::stats_producer::StatsProducer;
use crate::stats_producer::stage_stats_model;

verus! {

/// A predicate over items, used by a demultiplexer to pick a branch.  It is
/// pure: the answer depends only on the predicate's state and the item.
pub trait PathPredicate<T> {
    /// The predicate applied, as a function of state and item.
    spec fn spec_matches(&self, data: T) -> bool;

    fn matches(&self, data: &T) -> (r: bool)
        ensures
            r == self.spec_matches(*data),
    ;
}

/// A predicate over the item plus the branch sub-pipeline the item is routed
/// to when the predicate matches.
pub struct ConditionalPath<P, N> {
    pub predicate: P,
    pub next: N,
}

/// A demuxer whose paths are fixed at creation time.  Evaluation is
/// first-match-wins, in list order.
pub struct StaticDemuxer<T, O, X, F, C, P> {
    pub paths: Vec<ConditionalPath<P, Node<T, O, X, F, C, P>>>,
    pub phantom: core::marker::PhantomData<T>,
}

impl<T, O, X, F, C, P> StatsProducer for StaticDemuxer<T, O, X, F, C, P> {
    open spec fn spec_stats(&self) -> Option<Seq<(Seq<char>, u64)>> {
        None
    }

    fn get_stats(&self) -> (r: Option<Vec<StageStat>>)
        ensures
            stage_stats_model(r) == self.spec_stats(),
    {
        None
    }
}

impl<T, O, X, F, C, P> StaticDemuxer<T, O, X, F, C, P> where P: PathPredicate<T> {
    pub fn new(paths: Vec<ConditionalPath<P, Node<T, O, X, F, C, P>>>) -> (r: Self)
        ensures
            r.paths == paths,
    {
        Self { paths, phantom: core::marker::PhantomData }
    }

    /// The index of the first path whose predicate matches `data`, if any.
    pub open spec fn spec_find_path(
        paths: Seq<ConditionalPath<P, Node<T, O, X, F, C, P>>>,
        data: T,
    ) -> Option<int>
        decreases paths.len(),
    {
        if paths.len() == 0 {
            None
        } else if paths[0].predicate.spec_matches(data) {
            Some(0)
        } else {
            match Self::spec_find_path(paths.drop_first(), data) {
                Some(i) => Some(i + 1),
                None => None,
            }
        }
    }

    /// First-match-wins routing: the result is the first path whose
    /// predicate holds of the item, and an item matching no path yields
    /// `None`, whatever the later paths say.
    pub proof fn lemma_find_path_first_match(
        paths: Seq<ConditionalPath<P, Node<T, O, X, F, C, P>>>,
        data: T,
    )
        ensures
            match Self::spec_find_path(paths, data) {
                Some(i) => {
                    &&& 0 <= i < paths.len()
                    &&& paths[i].predicate.spec_matches(data)
                    &&& forall|j: int| 0 <= j < i ==> !(#[trigger] paths[j]).predicate.spec_matches(data)
                },
                None => forall|j: int|
                    0 <= j < paths.len() ==> !(#[trigger] paths[j]).predicate.spec_matches(data),
            },
        decreases paths.len(),
    {
        if paths.len() > 0 && !paths[0].predicate.spec_matches(data) {
            let rest = paths.drop_first();
            Self::lemma_find_path_first_match(rest, data);
            assert(forall|j: int| 0 <= j < rest.len() ==> rest[j] == paths[j + 1]);
            match Self::spec_find_path(rest, data) {
                Some(i) => {
                    assert(Self::spec_find_path(paths, data) == Some(i + 1));
                    assert(paths[i + 1].predicate.spec_matches(data)) by {
                        assert(rest[i] == paths[i + 1]);
                    }
                    assert forall|j: int| 0 <= j < i + 1 implies !(#[trigger] paths[j])
                        .predicate.spec_matches(data) by {
                        if j > 0 {
                            assert(rest[j - 1] == paths[j]);
                        }
                    }
                },
                None => {
                    assert forall|j: int| 0 <= j < paths.len() implies !(#[trigger] paths[j])
                        .predicate.spec_matches(data) by {
                        if j > 0 {
                            assert(rest[j - 1] == paths[j]);
                        }
                    }
                },
            }
        }
    }

    /// Scan the paths in order and return the index of the first whose
    /// predicate matches the item, or `None` if no path matches.
    pub fn find_path(&self, data: &T) -> (r: Option<usize>)
        ensures
            match r {
                Some(i) => Self::spec_find_path(self.paths@, *data) == Some(i as int),
                None => Self::spec_find_path(self.paths@, *data) is None,
            },
    {
        let ghost all = self.paths@;
        let n = self.paths.len();
        for i in 0..n
            invariant
                n == all.len(),
                self.paths@ == all,
                forall|j: int| 0 <= j < i ==> !(#[trigger] all[j]).predicate.spec_matches(*data),
        {
            if self.paths[i].predicate.matches(data) {
                proof {
                    Self::lemma_find_path_first_match(all, *data);
                }
                return Some(i);
            }
        }
        proof {
            Self::lemma_find_path_first_match(all, *data);
        }
        None
    }
}

impl<T, O, X, F, C, P> StaticDemuxer<T, O, X, F, C, P> where
    O: DataObserver<T>,
    X: DataTransformer<T>,
    F: DataFilter<T>,
    C: DataConsumer<T>,
    P: PathPredicate<T>,
{
    /// Forward the visitor into every branch's head node, in path-list
    /// order.  The demultiplexer owns its branch topology, so this is the
    /// only way a visitor reaches the branch sub-pipelines: they hang off no
    /// node's successor link.
    pub fn visit(&self, visitor: &mut StatsNodeVisitor)
        ensures
            final(visitor).spec_models() == old(visitor).spec_models() + Node::paths_snapshot(
                self.paths@,
                self.paths@.len() as int,
            ),
        decreases *self,
    {
        let ghost all = self.paths@;
        let ghost base = visitor.spec_models();
        let n = self.paths.len();
        for i in 0..n
            invariant
                n == all.len(),
                self.paths@ == all,
                visitor.spec_models() == base + Node::paths_snapshot(all, i as int),
        {
            self.paths[i].next.visit(visitor);
            proof {
                assert(visitor.spec_models() =~= base + Node::paths_snapshot(
                    all,
                    i + 1 as int,
                ));
            }
        }
    }
}

} // verus!
