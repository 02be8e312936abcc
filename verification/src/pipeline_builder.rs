//! Assembles nodes into a linear chain, wiring each new node as successor
//! of the current last node at attach time.  A two-phase structural type
//! state forbids linear attachment after a demultiplexing stage has been
//! appended: downstream topology there belongs to the demultiplexer's own
//! branch sub-pipelines, not to the chain.

use vstd::prelude::*;

use crate::data_handler::DataConsumer;
use crate::data_handler::DataFilter;
use crate::data_handler::DataObserver;
use crate::data_handler::DataTransformer;
use crate::data_handler::SomeDataHandler;
use crate::handlers::static_demuxer::PathPredicate;
use crate::handlers::static_demuxer::StaticDemuxer;
use crate::node::Node;
use crate::node::NodeStatsTracker;

verus! {

/// The structural phase of a builder.
pub trait PipelineState {}

/// Further linear attachments are accepted.
pub struct Open;

/// A demultiplexer has been appended; only `build` remains.
pub struct Terminated;

impl PipelineState for Open {}

impl PipelineState for Terminated {}

/// An ordered sequence of nodes being assembled, tagged with its phase.
/// `head` holds the chain as wired so far; the ghost `attached` records the
/// nodes in attachment order, so the contracts can speak of both.
pub struct PipelineBuilder<S: PipelineState, T, O, X, F, C, P> {
    pub head: Option<Node<T, O, X, F, C, P>>,
    pub attached: Ghost<Seq<Node<T, O, X, F, C, P>>>,
    pub _state: core::marker::PhantomData<S>,
}

/// `r` is the attached nodes wired into one chain: each node's successor
/// link holds the node attached after it, and the last attached node is the
/// tail.
pub open spec fn chained<T, O, X, F, C, P>(
    nodes: Seq<Node<T, O, X, F, C, P>>,
    r: Node<T, O, X, F, C, P>,
) -> bool
    decreases nodes.len(),
{
    if nodes.len() == 0 {
        false
    } else if nodes.len() == 1 {
        r == nodes[0]
    } else {
        &&& r.name == nodes[0].name
        &&& r.handler == nodes[0].handler
        &&& r.stats == nodes[0].stats
        &&& r.next matches Some(b) && chained(nodes.drop_first(), *b)
    }
}

/// The node `k` successor links below the head of a chain.
pub open spec fn chain_nth<T, O, X, F, C, P>(h: Node<T, O, X, F, C, P>, k: int) -> Node<
    T,
    O,
    X,
    F,
    C,
    P,
>
    decreases k,
{
    if k <= 0 {
        h
    } else {
        match h.next {
            Some(n) => chain_nth(*n, k - 1),
            None => h,
        }
    }
}

/// Attaching wires the new node as successor of the previous last node: in
/// the chain of `nodes.push(node)`, the node at the end of the old prefix
/// now links to `node`, which is the new tail.
pub proof fn lemma_chained_wires_last<T, O, X, F, C, P>(
    nodes: Seq<Node<T, O, X, F, C, P>>,
    node: Node<T, O, X, F, C, P>,
    h: Node<T, O, X, F, C, P>,
)
    requires
        nodes.len() > 0,
        chained(nodes.push(node), h),
    ensures
        chain_nth(h, nodes.len() - 1).next matches Some(b) && *b == node,
    decreases nodes.len(),
{
    if nodes.len() == 1 {
        assert(nodes.push(node).len() == 2);
        assert(h.next is Some);
        let b = *h.next->0;
        assert(chained(nodes.push(node).drop_first(), b));
        assert(nodes.push(node).drop_first() =~= seq![node]);
        assert(chained(seq![node], b));
        assert(b == node);
        assert(chain_nth(h, 0) == h);
    } else {
        assert(h.next is Some);
        assert(chained(nodes.push(node).drop_first(), *h.next->0));
        assert(nodes.push(node).drop_first() =~= nodes.drop_first().push(node));
        lemma_chained_wires_last(nodes.drop_first(), node, *h.next->0);
        assert(chain_nth(h, nodes.len() - 1) == chain_nth(*h.next->0, nodes.len() - 2));
    }
}

/// Chaining preserves the counter accounting: if every attached node
/// satisfied `ingress == egress + discarded + errors + consumed` (branches
/// included), the built pipeline does too.
pub proof fn lemma_chained_counters_ok<T, O, X, F, C, P>(
    nodes: Seq<Node<T, O, X, F, C, P>>,
    r: Node<T, O, X, F, C, P>,
) where
    O: DataObserver<T>,
    X: DataTransformer<T>,
    F: DataFilter<T>,
    C: DataConsumer<T>,
    P: PathPredicate<T>,

    requires
        chained(nodes, r),
        forall|i: int| 0 <= i < nodes.len() ==> (#[trigger] nodes[i]).counters_ok(),
    ensures
        r.counters_ok(),
    decreases nodes.len(),
{
    assert(nodes[0].counters_ok());
    if nodes.len() > 1 {
        let rest = nodes.drop_first();
        assert(forall|i: int| 0 <= i < rest.len() ==> rest[i] == nodes[i + 1]);
        lemma_chained_counters_ok(rest, *r.next->0);
    }
}

/// Chaining preserves counter bounds: if every counter of every attached
/// node was at most `b`, every counter of the built pipeline is too.
pub proof fn lemma_chained_counters_le<T, O, X, F, C, P>(
    nodes: Seq<Node<T, O, X, F, C, P>>,
    r: Node<T, O, X, F, C, P>,
    b: int,
) where
    O: DataObserver<T>,
    X: DataTransformer<T>,
    F: DataFilter<T>,
    C: DataConsumer<T>,
    P: PathPredicate<T>,

    requires
        chained(nodes, r),
        forall|i: int| 0 <= i < nodes.len() ==> (#[trigger] nodes[i]).counters_le(b),
    ensures
        r.counters_le(b),
    decreases nodes.len(),
{
    assert(nodes[0].counters_le(b));
    if nodes.len() > 1 {
        let rest = nodes.drop_first();
        assert(forall|i: int| 0 <= i < rest.len() ==> rest[i] == nodes[i + 1]);
        lemma_chained_counters_le(rest, *r.next->0, b);
    }
}

/// Descend to the tail of a wired chain and wire `node` as its successor.
fn append_tail<T, O, X, F, C, P>(
    n: &mut Node<T, O, X, F, C, P>,
    node: Node<T, O, X, F, C, P>,
    Ghost(rest): Ghost<Seq<Node<T, O, X, F, C, P>>>,
)
    requires
        chained(rest, *old(n)),
        forall|i: int| 0 <= i < rest.len() ==> (#[trigger] rest[i]).next is None,
        node.next is None,
    ensures
        chained(rest.push(node), *final(n)),
    decreases *old(n),
{
    let ghost pre = *n;
    match &mut n.next {
        None => {
            n.next = Some(Box::new(node));
            proof {
                assert(rest.len() == 1);
                assert(rest.push(node).drop_first() =~= seq![node]);
                assert(rest.push(node)[0] == rest[0]);
                assert(seq![node][0] == node);
                assert(chained(seq![node], node));
                assert(*n.next->0 == node);
                assert(chained(rest.push(node), *n));
            }
        },
        Some(m) => {
            proof {
                assert(rest.len() > 1);
                assert(forall|i: int|
                    0 <= i < rest.drop_first().len() ==> rest.drop_first()[i] == rest[i + 1]);
            }
            append_tail(m, node, Ghost(rest.drop_first()));
            proof {
                assert(n.name == pre.name);
                assert(pre.name == rest[0].name);
                assert(n.next is Some);
                assert(chained(rest.drop_first().push(node), *n.next->0));
                assert(rest.push(node).drop_first() =~= rest.drop_first().push(node));
                assert(rest.push(node)[0] == rest[0]);
                assert(rest.push(node).len() > 1);
                assert(chained(rest.push(node), *n));
            }
        },
    }
}

impl<S: PipelineState, T, O, X, F, C, P> PipelineBuilder<S, T, O, X, F, C, P> {
    /// The builder's chain matches its attachment record: the head is the
    /// attached nodes wired in order, and every node came in unlinked (the
    /// builder alone sets links, each exactly once).
    pub open spec fn wf(self) -> bool {
        &&& match self.head {
            None => self.attached@.len() == 0,
            Some(h) => self.attached@.len() > 0 && chained(self.attached@, h),
        }
        &&& forall|i: int| 0 <= i < self.attached@.len() ==> (#[trigger] self.attached@[i]).next
            is None
    }

    /// Hand back the head of the wired chain.  At least one node must have
    /// been attached: building an empty pipeline is a caller contract
    /// violation.
    pub fn build(self) -> (r: Node<T, O, X, F, C, P>)
        requires
            self.wf(),
            self.attached@.len() > 0,
        ensures
            chained(self.attached@, r),
    {
        self.head.unwrap()
    }
}

impl<T, O, X, F, C, P> PipelineBuilder<Open, T, O, X, F, C, P> {
    /// A fresh builder: open, with no nodes.
    pub fn new() -> (r: Self)
        ensures
            r.wf(),
            r.attached@ == Seq::<Node<T, O, X, F, C, P>>::empty(),
    {
        PipelineBuilder {
            head: None,
            attached: Ghost(Seq::empty()),
            _state: core::marker::PhantomData,
        }
    }

    /// Append a node to the chain: if a previous node exists, the new node
    /// is wired as its successor here and now, before anything is built.
    /// The node must come in unlinked -- links are set by the builder, each
    /// exactly once.  Only an open builder accepts this; the result is
    /// open, so calls chain.
    pub fn attach(self, node: Node<T, O, X, F, C, P>) -> (r: Self)
        requires
            self.wf(),
            node.next is None,
        ensures
            r.wf(),
            r.attached@ == self.attached@.push(node),
            r.head matches Some(h) && chained(r.attached@, h),
            self.attached@.len() > 0 ==> (r.head matches Some(h)
                && chain_nth(h, self.attached@.len() - 1).next matches Some(b) && *b == node),
    {
        let ghost att = self.attached@;
        let new_head = match self.head {
            None => node,
            Some(mut h) => {
                append_tail(&mut h, node, Ghost(att));
                h
            },
        };
        proof {
            if att.len() == 0 {
                assert(att.push(node) =~= seq![node]);
            }
            assert(forall|i: int|
                0 <= i < att.len() ==> att.push(node)[i] == (#[trigger] att[i]));
            assert(att.push(node)[att.len() as int] == node);
            if att.len() > 0 {
                lemma_chained_wires_last(att, node, new_head);
            }
        }
        PipelineBuilder {
            head: Some(new_head),
            attached: Ghost(att.push(node)),
            _state: core::marker::PhantomData,
        }
    }

    /// Wrap a demultiplexer in a fresh node and append it, wiring it as
    /// successor of the current last node just as `attach` does.  The
    /// result is a terminated builder: a demultiplexer handles its own
    /// downstream paths, so nothing can be attached linearly after it --
    /// only `build` remains, and the compiler enforces it.
    pub fn demux(self, name: String, demuxer: StaticDemuxer<T, O, X, F, C, P>) -> (r:
        PipelineBuilder<Terminated, T, O, X, F, C, P>)
        requires
            self.wf(),
        ensures
            r.wf(),
            r.attached@.len() == self.attached@.len() + 1,
            r.attached@.subrange(0, self.attached@.len() as int) == self.attached@,
            r.attached@[self.attached@.len() as int].name == name,
            r.attached@[self.attached@.len() as int].handler == SomeDataHandler::Demuxer(demuxer),
            r.attached@[self.attached@.len() as int].stats == NodeStatsTracker::zeroed(),
            r.attached@[self.attached@.len() as int].next is None,
            r.head matches Some(h) && chained(r.attached@, h),
            self.attached@.len() > 0 ==> (r.head matches Some(h)
                && chain_nth(h, self.attached@.len() - 1).next matches Some(b)
                && (*b).handler == SomeDataHandler::Demuxer(demuxer)),
    {
        let new_node = Node::new(name, SomeDataHandler::Demuxer(demuxer));
        let b = self.attach(new_node);
        proof {
            assert(b.attached@.subrange(0, b.attached@.len() - 1) =~= self.attached@);
        }
        PipelineBuilder { head: b.head, attached: b.attached, _state: core::marker::PhantomData }
    }
}

impl<T, O, X, F, C, P> Default for PipelineBuilder<Open, T, O, X, F, C, P> {
    /// Same as [`PipelineBuilder::new`]: a fresh, open builder.
    fn default() -> (r: Self)
        ensures
            r.wf(),
            r.attached@ == Seq::<Node<T, O, X, F, C, P>>::empty(),
    {
        PipelineBuilder::new()
    }
}

} // verus!
