//! A streaming pipeline engine: a chain of processing nodes that items of a
//! single value type pass through one at a time.  Each node owns one stage
//! (an observer, transformer, filter, consumer, or demultiplexer), counts the
//! items that enter and leave it, and forwards items to its successor or, for
//! a demultiplexer, to the first matching branch sub-pipeline.

pub mod data_handler;
pub mod handlers;
pub mod node;
pub mod node_visitor;
pub mod pipeline_builder;
pub mod stats_producer;
