//! End-to-end tests of the pipeline engine: building, dispatching, counter
//! accounting, and error containment.

use pipeline::data_handler::SomeDataHandler;
use pipeline::handlers::basic::CollectingConsumer;
use pipeline::handlers::basic::CountingObserver;
use pipeline::handlers::basic::OffsetTransformer;
use pipeline::handlers::basic::ParityFilter;
use pipeline::handlers::basic::ParityPredicate;
use pipeline::handlers::static_demuxer::ConditionalPath;
use pipeline::handlers::static_demuxer::StaticDemuxer;
use pipeline::node::Node;
use pipeline::node_visitor::StatsNodeVisitor;
use pipeline::pipeline_builder::PipelineBuilder;

type TestNode = Node<
    u64,
    CountingObserver,
    OffsetTransformer,
    ParityFilter,
    CollectingConsumer,
    ParityPredicate,
>;
type TestBuilder = PipelineBuilder<
    pipeline::pipeline_builder::Open,
    u64,
    CountingObserver,
    OffsetTransformer,
    ParityFilter,
    CollectingConsumer,
    ParityPredicate,
>;

fn observer_node(name: &str) -> TestNode {
    Node::new(
        String::from(name),
        SomeDataHandler::Observer(CountingObserver::new()),
    )
}

fn filter_node(name: &str, keep_even: bool) -> TestNode {
    Node::new(
        String::from(name),
        SomeDataHandler::Filter(ParityFilter::new(keep_even)),
    )
}

fn consumer_node(name: &str) -> TestNode {
    Node::new(
        String::from(name),
        SomeDataHandler::Consumer(CollectingConsumer::new()),
    )
}

fn transformer_node(name: &str, offset: u64) -> TestNode {
    Node::new(
        String::from(name),
        SomeDataHandler::Transformer(OffsetTransformer::new(offset)),
    )
}

fn snapshot(head: &TestNode) -> StatsNodeVisitor {
    let mut stats = StatsNodeVisitor::default();
    head.visit(&mut stats);
    stats
}

fn report_of<'a>(stats: &'a StatsNodeVisitor, name: &str) -> &'a pipeline::node::NodeStatsReport {
    stats
        .all_stats
        .iter()
        .find(|r| r.name == name)
        .unwrap_or_else(|| panic!("no stats entry for node {name}"))
}

#[test]
fn test() {
    let num_items: u64 = 1000000;
    let num_nodes: u64 = 10;
    let mut builder = TestBuilder::default();
    for i in 0..num_nodes {
        builder = builder.attach(observer_node(&format!("{i}")));
    }

    let mut first_node = builder.build();
    for i in 0..num_items {
        first_node.process_data(i);
    }
    let stats = snapshot(&first_node);
    assert_eq!(stats.all_stats.len(), num_nodes as usize);
    for i in 0..num_nodes {
        let report = report_of(&stats, &format!("{i}"));
        assert_eq!(report.data_ingress, num_items);
        assert_eq!(report.data_egress, num_items);
        assert_eq!(report.data_discarded, 0);
        assert_eq!(report.errors, 0);
        let handler_stats = report.handler_stats.as_ref().unwrap();
        assert_eq!(handler_stats[0].key, "num_observed");
        assert_eq!(handler_stats[0].value, num_items);
    }
}

#[test]
fn test_builder() {
    let mut pipeline = TestBuilder::new()
        .demux(
            String::from("odd/even demuxer"),
            StaticDemuxer::new(vec![
                ConditionalPath {
                    predicate: ParityPredicate::new(true),
                    next: TestBuilder::new()
                        .attach(observer_node("1a"))
                        .attach(observer_node("2a"))
                        .attach(observer_node("3a"))
                        .build(),
                },
                ConditionalPath {
                    predicate: ParityPredicate::new(false),
                    next: TestBuilder::new()
                        .attach(observer_node("1b"))
                        .attach(observer_node("2b"))
                        .attach(observer_node("3b"))
                        .build(),
                },
            ]),
        )
        .build();

    for i in 0..10 {
        pipeline.process_data(i);
    }
    let stats = snapshot(&pipeline);
    // pre-order: the demuxer first, then each branch in path-list order
    let names: Vec<&str> = stats.all_stats.iter().map(|r| r.name.as_str()).collect();
    assert_eq!(
        names,
        vec!["odd/even demuxer", "1a", "2a", "3a", "1b", "2b", "3b"]
    );
    let demuxer = report_of(&stats, "odd/even demuxer");
    assert_eq!(demuxer.data_ingress, 10);
    assert_eq!(demuxer.data_egress, 10);
    assert_eq!(demuxer.data_discarded, 0);
    for name in ["1a", "2a", "3a", "1b", "2b", "3b"] {
        assert_eq!(report_of(&stats, name).data_ingress, 5, "node {name}");
    }
}

#[test]
fn linear_end_to_end_counts() {
    // Observer -> Filter(even) -> Consumer over [0, 1, 2, 3, 4]
    let mut head = TestBuilder::new()
        .attach(observer_node("observer"))
        .attach(filter_node("filter", true))
        .attach(consumer_node("consumer"))
        .build();
    for i in [0u64, 1, 2, 3, 4] {
        let err = head.process_data(i);
        assert!(err.is_none());
    }
    let stats = snapshot(&head);
    let observer = report_of(&stats, "observer");
    assert_eq!(observer.data_ingress, 5);
    assert_eq!(observer.data_egress, 5);
    let filter = report_of(&stats, "filter");
    assert_eq!(filter.data_ingress, 5);
    assert_eq!(filter.data_egress, 3);
    assert_eq!(filter.data_discarded, 2);
    assert_eq!(filter.errors, 0);
    let consumer = report_of(&stats, "consumer");
    assert_eq!(consumer.data_ingress, 3);
    assert_eq!(consumer.data_egress, 0);
    assert_eq!(consumer.data_discarded, 0);
    let consumed = consumer.handler_stats.as_ref().unwrap();
    assert_eq!(consumed[0].key, "num_consumed");
    assert_eq!(consumed[0].value, 3);
    // exactly the even items arrived, in order
    let consumer_node = head.next.as_ref().unwrap().next.as_ref().unwrap();
    match &consumer_node.handler {
        SomeDataHandler::Consumer(c) => assert_eq!(c.items, vec![0, 2, 4]),
        _ => panic!("last node is not a consumer"),
    }
}

#[test]
fn filter_forwards_iff_predicate_holds() {
    // keep odd items this time; counters record each discard exactly once
    let mut head = TestBuilder::new()
        .attach(filter_node("odd filter", false))
        .attach(consumer_node("sink"))
        .build();
    for i in 0..7u64 {
        head.process_data(i);
    }
    let stats = snapshot(&head);
    let filter = report_of(&stats, "odd filter");
    assert_eq!(filter.data_ingress, 7);
    assert_eq!(filter.data_egress, 3); // 1, 3, 5
    assert_eq!(filter.data_discarded, 4); // 0, 2, 4, 6
    let sink = report_of(&stats, "sink");
    assert_eq!(sink.data_ingress, 3);
}

#[test]
fn consumer_is_terminal_despite_successor() {
    // a consumer never forwards, even with a wired successor
    let mut head = TestBuilder::new()
        .attach(consumer_node("eater"))
        .attach(observer_node("unreachable"))
        .build();
    for i in 0..4u64 {
        head.process_data(i);
    }
    let stats = snapshot(&head);
    assert_eq!(report_of(&stats, "eater").data_ingress, 4);
    assert_eq!(report_of(&stats, "eater").data_egress, 0);
    assert_eq!(report_of(&stats, "unreachable").data_ingress, 0);
}

#[test]
fn demux_end_to_end_counts() {
    // even -> branch A (1 node), odd -> branch B (1 node), fed 0..9
    let mut head = TestBuilder::new()
        .demux(
            String::from("demux"),
            StaticDemuxer::new(vec![
                ConditionalPath {
                    predicate: ParityPredicate::new(true),
                    next: consumer_node("branch a"),
                },
                ConditionalPath {
                    predicate: ParityPredicate::new(false),
                    next: consumer_node("branch b"),
                },
            ]),
        )
        .build();
    for i in 0..10u64 {
        head.process_data(i);
    }
    let stats = snapshot(&head);
    let demux = report_of(&stats, "demux");
    assert_eq!(demux.data_ingress, 10);
    assert_eq!(demux.data_egress, 10);
    assert_eq!(demux.data_discarded, 0);
    assert_eq!(report_of(&stats, "branch a").data_ingress, 5);
    assert_eq!(report_of(&stats, "branch b").data_ingress, 5);
}

#[test]
fn demux_first_match_wins() {
    // both paths match even items: the first one gets them all
    let mut head = TestBuilder::new()
        .demux(
            String::from("demux"),
            StaticDemuxer::new(vec![
                ConditionalPath {
                    predicate: ParityPredicate::new(true),
                    next: consumer_node("first even"),
                },
                ConditionalPath {
                    predicate: ParityPredicate::new(true),
                    next: consumer_node("second even"),
                },
            ]),
        )
        .build();
    for i in [0u64, 2, 4, 6] {
        head.process_data(i);
    }
    let stats = snapshot(&head);
    assert_eq!(report_of(&stats, "first even").data_ingress, 4);
    assert_eq!(report_of(&stats, "second even").data_ingress, 0);
}

#[test]
fn demux_no_match_discards() {
    // only an even path; odd items match no path and reach no branch
    let mut head = TestBuilder::new()
        .demux(
            String::from("demux"),
            StaticDemuxer::new(vec![ConditionalPath {
                predicate: ParityPredicate::new(true),
                next: consumer_node("evens"),
            }]),
        )
        .build();
    for i in 0..6u64 {
        head.process_data(i);
    }
    let stats = snapshot(&head);
    let demux = report_of(&stats, "demux");
    assert_eq!(demux.data_ingress, 6);
    assert_eq!(demux.data_egress, 3);
    assert_eq!(demux.data_discarded, 3);
    assert_eq!(report_of(&stats, "evens").data_ingress, 3);
}

#[test]
fn transform_failure_is_counted_and_contained() {
    let mut head = TestBuilder::new()
        .attach(transformer_node("shift", 10))
        .attach(consumer_node("sink"))
        .build();
    assert!(head.process_data(5).is_none());
    let err = head.process_data(u64::MAX - 3).expect("overflow must be reported");
    assert_eq!(err.node_name, "shift");
    assert_eq!(err.message, "offset addition overflowed");
    // the pipeline keeps going afterwards
    assert!(head.process_data(7).is_none());
    let stats = snapshot(&head);
    let shift = report_of(&stats, "shift");
    assert_eq!(shift.data_ingress, 3);
    assert_eq!(shift.data_egress, 2);
    assert_eq!(shift.errors, 1);
    let sink = report_of(&stats, "sink");
    assert_eq!(sink.data_ingress, 2);
    let consumed = sink.handler_stats.as_ref().unwrap();
    assert_eq!(consumed[0].value, 2);
}

#[test]
fn end_of_chain_drop_is_silent() {
    // an observer with no successor: forwarded items just fall off the end
    let mut head = TestBuilder::new().attach(observer_node("only")).build();
    for i in 0..3u64 {
        assert!(head.process_data(i).is_none());
    }
    let stats = snapshot(&head);
    let only = report_of(&stats, "only");
    assert_eq!(only.data_ingress, 3);
    assert_eq!(only.data_egress, 3);
    assert_eq!(only.data_discarded, 0);
    assert_eq!(only.errors, 0);
}

#[test]
fn find_path_returns_first_matching_index() {
    let demux: StaticDemuxer<
        u64,
        CountingObserver,
        OffsetTransformer,
        ParityFilter,
        CollectingConsumer,
        ParityPredicate,
    > = StaticDemuxer::new(vec![
        ConditionalPath {
            predicate: ParityPredicate::new(true),
            next: consumer_node("a"),
        },
        ConditionalPath {
            predicate: ParityPredicate::new(false),
            next: consumer_node("b"),
        },
        ConditionalPath {
            predicate: ParityPredicate::new(true),
            next: consumer_node("c"),
        },
    ]);
    assert_eq!(demux.find_path(&4), Some(0)); // not 2: first match wins
    assert_eq!(demux.find_path(&3), Some(1));
}

#[test]
fn find_path_none_when_no_predicate_matches() {
    let demux: StaticDemuxer<
        u64,
        CountingObserver,
        OffsetTransformer,
        ParityFilter,
        CollectingConsumer,
        ParityPredicate,
    > = StaticDemuxer::new(vec![ConditionalPath {
        predicate: ParityPredicate::new(true),
        next: consumer_node("evens"),
    }]);
    assert_eq!(demux.find_path(&7), None);
}

#[test]
fn manual_wiring_matches_the_builder() {
    let mut a = observer_node("a");
    let b = consumer_node("b");
    assert_eq!(a.name(), "a");
    a.set_next(b);
    a.process_data(1);
    a.process_data(2);
    let stats = snapshot(&a);
    assert_eq!(report_of(&stats, "a").data_egress, 2);
    assert_eq!(report_of(&stats, "b").data_ingress, 2);
}

#[test]
fn duplicate_names_both_appear_in_visit_order() {
    // name uniqueness is the caller's responsibility; the visitor itself
    // records every node it reaches, in order
    let mut head = TestBuilder::new()
        .attach(observer_node("twin"))
        .attach(observer_node("twin"))
        .build();
    head.process_data(4);
    let stats = snapshot(&head);
    assert_eq!(stats.all_stats.len(), 2);
    assert_eq!(stats.all_stats[0].name, "twin");
    assert_eq!(stats.all_stats[1].name, "twin");
    assert_eq!(stats.all_stats[0].data_egress, 1);
    assert_eq!(stats.all_stats[1].data_egress, 1);
}

#[test]
fn attach_wires_the_previous_last_node() {
    let b = TestBuilder::new().attach(observer_node("first"));
    assert!(b.head.as_ref().unwrap().next.is_none());
    let b = b.attach(observer_node("second"));
    // wired at attach time, before anything is built
    let head = b.head.as_ref().unwrap();
    assert_eq!(head.name(), "first");
    assert_eq!(head.next.as_ref().unwrap().name(), "second");
    let b = b.attach(observer_node("third"));
    let head = b.head.as_ref().unwrap();
    assert_eq!(
        head.next.as_ref().unwrap().next.as_ref().unwrap().name(),
        "third"
    );
}

#[test]
fn demux_wires_the_previous_last_node() {
    let b = TestBuilder::new().attach(observer_node("front")).demux(
        String::from("router"),
        StaticDemuxer::new(vec![ConditionalPath {
            predicate: ParityPredicate::new(true),
            next: consumer_node("evens"),
        }]),
    );
    let head = b.head.as_ref().unwrap();
    assert_eq!(head.name(), "front");
    let demux_node = head.next.as_ref().unwrap();
    assert_eq!(demux_node.name(), "router");
    assert!(matches!(demux_node.handler, SomeDataHandler::Demuxer(_)));
}
