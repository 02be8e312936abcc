//! The five mutually exclusive stage capabilities a node can hold, and the
//! tagged union that stores exactly one implementation of one of them.

use vstd::prelude::*;

use crate::handlers::static_demuxer::StaticDemuxer;
use crate::stats_producer::StageStat;
use crate::stats_producer::StatsProducer;
use crate::stats_producer::stage_stats_model;

verus! {

/// A stage-local failure while transforming an item.  The engine counts it
/// and drops the item; the message is handed back to the host untouched.
pub struct TransformError {
    pub message: String,
}

/// A stage that inspects items without consuming them; the item is always
/// forwarded afterwards.
///
/// `spec_observed` says what it means for `post` to be the stage's state
/// after observing one item: a caller that holds the state after a run
/// knows the stage observed exactly the items that passed, in order.
pub trait DataObserver<T>: StatsProducer + Sized {
    /// `post` is a state this observer can be in after observing `data`.
    spec fn spec_observed(&self, data: T, post: Self) -> bool;

    fn observe(&mut self, data: &T)
        ensures
            old(self).spec_observed(*data, *final(self)),
    ;
}

/// A stage that consumes an item and returns a (possibly mutated) item, or
/// fails.  On failure the item is not forwarded.
///
/// `spec_transform` fixes, as a function of the stage's state before the
/// call, both which items succeed and what they become; on failure it gives
/// the failure message.  `spec_transformed` ties down the stage's state
/// after the call.
pub trait DataTransformer<T>: StatsProducer + Sized {
    /// What `transform` returns, as a function of the pre-call state.
    spec fn spec_transform(&self, data: T) -> Result<T, Seq<char>>;

    /// `post` is a state this transformer can be in after transforming
    /// `data`.
    spec fn spec_transformed(&self, data: T, post: Self) -> bool;

    fn transform(&mut self, data: T) -> (r: Result<T, TransformError>)
        ensures
            match r {
                Ok(out) => old(self).spec_transform(data) == Ok::<T, Seq<char>>(out),
                Err(e) => old(self).spec_transform(data) == Err::<T, Seq<char>>(e.message@),
            },
            old(self).spec_transformed(data, *final(self)),
    ;
}

/// A stage that decides whether the (unmodified) item continues; `false`
/// means the item is discarded.  `spec_filtered` ties down the stage's
/// state after testing one item; for a filter whose state it pins exactly,
/// the decisions over a whole run are fixed by the starting state.
pub trait DataFilter<T>: StatsProducer + Sized {
    /// The predicate the filter applies, as a function of the pre-call state.
    spec fn spec_should_forward(&self, data: T) -> bool;

    /// `post` is a state this filter can be in after testing `data`.
    spec fn spec_filtered(&self, data: T, post: Self) -> bool;

    fn should_forward(&mut self, data: &T) -> (r: bool)
        ensures
            r == old(self).spec_should_forward(*data),
            old(self).spec_filtered(*data, *final(self)),
    ;
}

/// A terminal stage: the item is fully owned and never forwarded further,
/// regardless of any configured successor.
///
/// `spec_consumed` says what it means for `post` to be the stage's state
/// after taking one item: a caller that holds the state after a run knows
/// the stage received exactly the items that reached it, in order.
pub trait DataConsumer<T>: StatsProducer + Sized {
    /// `post` is a state this consumer can be in after consuming `data`.
    spec fn spec_consumed(&self, data: T, post: Self) -> bool;

    fn consume(&mut self, data: T)
        ensures
            old(self).spec_consumed(data, *final(self)),
    ;
}

/// Exactly one capability per node.  The demultiplexing capability is the
/// closed reference implementation [`StaticDemuxer`], which owns its branch
/// sub-pipelines outright.
pub enum SomeDataHandler<T, O, X, F, C, P> {
    Observer(O),
    Transformer(X),
    Filter(F),
    Consumer(C),
    Demuxer(StaticDemuxer<T, O, X, F, C, P>),
}

impl<T, O, X, F, C, P> StatsProducer for SomeDataHandler<T, O, X, F, C, P> where
    O: DataObserver<T>,
    X: DataTransformer<T>,
    F: DataFilter<T>,
    C: DataConsumer<T>,
{
    open spec fn spec_stats(&self) -> Option<Seq<(Seq<char>, u64)>> {
        match self {
            SomeDataHandler::Observer(o) => o.spec_stats(),
            SomeDataHandler::Transformer(t) => t.spec_stats(),
            SomeDataHandler::Filter(f) => f.spec_stats(),
            SomeDataHandler::Consumer(c) => c.spec_stats(),
            SomeDataHandler::Demuxer(d) => d.spec_stats(),
        }
    }

    /// The uniform stats query: delegates to whichever capability is held.
    fn get_stats(&self) -> (r: Option<Vec<StageStat>>)
        ensures
            stage_stats_model(r) == self.spec_stats(),
    {
        match self {
            SomeDataHandler::Observer(o) => o.get_stats(),
            SomeDataHandler::Transformer(t) => t.get_stats(),
            SomeDataHandler::Filter(f) => f.get_stats(),
            SomeDataHandler::Consumer(c) => c.get_stats(),
            SomeDataHandler::Demuxer(d) => d.get_stats(),
        }
    }
}

} // verus!
