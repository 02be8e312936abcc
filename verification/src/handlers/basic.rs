//! Small verified stages over `u64` items, usable as the concrete stage set
//! of a pipeline: an observer that counts what it sees, a transformer that
//! adds a constant, a parity filter, a consumer that keeps what it is given,
//! and a parity path predicate for demultiplexing.

use vstd::prelude::*;
use vstd::string::StringExecFns;

use crate::data_handler::DataConsumer;
use crate::data_handler::DataFilter;
use crate::data_handler::DataObserver;
use crate::data_handler::DataTransformer;
use crate::data_handler::TransformError;
use crate::handlers::static_demuxer::PathPredicate;
use crate::stats_producer::StageStat;
use crate::stats_producer::StatsProducer;
use crate::stats_producer::stage_stats_model;

verus! {

/// An observer that counts how many items it has seen.  The count saturates
/// instead of wrapping.
pub struct CountingObserver {
    pub count: u64,
}

impl CountingObserver {
    pub fn new() -> (r: Self)
        ensures
            r.count == 0,
    {
        CountingObserver { count: 0 }
    }
}

impl StatsProducer for CountingObserver {
    open spec fn spec_stats(&self) -> Option<Seq<(Seq<char>, u64)>> {
        Some(seq![("num_observed"@, self.count)])
    }

    fn get_stats(&self) -> (r: Option<Vec<StageStat>>)
        ensures
            stage_stats_model(r) == self.spec_stats(),
    {
        let mut v: Vec<StageStat> = Vec::new();
        v.push(StageStat { key: String::from_str("num_observed"), value: self.count });
        proof {
            assert(v@.map_values(|s: StageStat| crate::stats_producer::stage_stat_model(s))
                =~= seq![("num_observed"@, self.count)]);
        }
        Some(v)
    }
}

impl DataObserver<u64> for CountingObserver {
    open spec fn spec_observed(&self, data: u64, post: Self) -> bool {
        post.count == if self.count < u64::MAX {
            self.count + 1
        } else {
            u64::MAX as int
        }
    }

    fn observe(&mut self, data: &u64)
        ensures
            old(self).spec_observed(*data, *final(self)),
    {
        if self.count < u64::MAX {
            self.count = self.count + 1;
        }
    }
}

/// A transformer that adds a fixed offset to each item and fails on
/// arithmetic overflow.
pub struct OffsetTransformer {
    pub offset: u64,
}

impl OffsetTransformer {
    pub fn new(offset: u64) -> (r: Self)
        ensures
            r.offset == offset,
    {
        OffsetTransformer { offset }
    }
}

impl StatsProducer for OffsetTransformer {
    open spec fn spec_stats(&self) -> Option<Seq<(Seq<char>, u64)>> {
        None
    }

    fn get_stats(&self) -> (r: Option<Vec<StageStat>>)
        ensures
            stage_stats_model(r) == self.spec_stats(),
    {
        None
    }
}

impl DataTransformer<u64> for OffsetTransformer {
    open spec fn spec_transform(&self, data: u64) -> Result<u64, Seq<char>> {
        if data + self.offset <= u64::MAX {
            Ok((data + self.offset) as u64)
        } else {
            Err("offset addition overflowed"@)
        }
    }

    open spec fn spec_transformed(&self, data: u64, post: Self) -> bool {
        post == *self
    }

    fn transform(&mut self, data: u64) -> (r: Result<u64, TransformError>)
        ensures
            match r {
                Ok(out) => old(self).spec_transform(data) == Ok::<u64, Seq<char>>(out),
                Err(e) => old(self).spec_transform(data) == Err::<u64, Seq<char>>(e.message@),
            },
            old(self).spec_transformed(data, *final(self)),
    {
        if self.offset <= u64::MAX - data {
            Ok(data + self.offset)
        } else {
            Err(TransformError { message: String::from_str("offset addition overflowed") })
        }
    }
}

/// A filter that keeps even items, or odd items when `keep_even` is false.
pub struct ParityFilter {
    pub keep_even: bool,
}

impl ParityFilter {
    pub fn new(keep_even: bool) -> (r: Self)
        ensures
            r.keep_even == keep_even,
    {
        ParityFilter { keep_even }
    }
}

impl StatsProducer for ParityFilter {
    open spec fn spec_stats(&self) -> Option<Seq<(Seq<char>, u64)>> {
        None
    }

    fn get_stats(&self) -> (r: Option<Vec<StageStat>>)
        ensures
            stage_stats_model(r) == self.spec_stats(),
    {
        None
    }
}

impl DataFilter<u64> for ParityFilter {
    open spec fn spec_should_forward(&self, data: u64) -> bool {
        (data % 2 == 0) == self.keep_even
    }

    open spec fn spec_filtered(&self, data: u64, post: Self) -> bool {
        post == *self
    }

    fn should_forward(&mut self, data: &u64) -> (r: bool)
        ensures
            r == old(self).spec_should_forward(*data),
            old(self).spec_filtered(*data, *final(self)),
    {
        (*data % 2 == 0) == self.keep_even
    }
}

/// A terminal stage that keeps every item it is given, in arrival order.
pub struct CollectingConsumer {
    pub items: Vec<u64>,
}

impl CollectingConsumer {
    pub fn new() -> (r: Self)
        ensures
            r.items@ == Seq::<u64>::empty(),
    {
        CollectingConsumer { items: Vec::new() }
    }
}

impl StatsProducer for CollectingConsumer {
    open spec fn spec_stats(&self) -> Option<Seq<(Seq<char>, u64)>> {
        Some(seq![("num_consumed"@, self.items@.len() as u64)])
    }

    fn get_stats(&self) -> (r: Option<Vec<StageStat>>)
        ensures
            stage_stats_model(r) == self.spec_stats(),
    {
        let mut v: Vec<StageStat> = Vec::new();
        let n = self.items.len();
        v.push(StageStat { key: String::from_str("num_consumed"), value: n as u64 });
        proof {
            assert(v@.map_values(|s: StageStat| crate::stats_producer::stage_stat_model(s))
                =~= seq![("num_consumed"@, self.items@.len() as u64)]);
        }
        Some(v)
    }
}

impl DataConsumer<u64> for CollectingConsumer {
    open spec fn spec_consumed(&self, data: u64, post: Self) -> bool {
        post.items@ == self.items@.push(data)
    }

    fn consume(&mut self, data: u64)
        ensures
            old(self).spec_consumed(data, *final(self)),
    {
        self.items.push(data);
    }
}

/// A path predicate that matches even items, or odd items when `match_even`
/// is false.
pub struct ParityPredicate {
    pub match_even: bool,
}

impl ParityPredicate {
    pub fn new(match_even: bool) -> (r: Self)
        ensures
            r.match_even == match_even,
    {
        ParityPredicate { match_even }
    }
}

impl PathPredicate<u64> for ParityPredicate {
    open spec fn spec_matches(&self, data: u64) -> bool {
        (data % 2 == 0) == self.match_even
    }

    fn matches(&self, data: &u64) -> (r: bool)
        ensures
            r == self.spec_matches(*data),
    {
        (*data % 2 == 0) == self.match_even
    }
}

} // verus!
