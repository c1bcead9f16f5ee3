use chat_stats::aggregator::Aggregator;
use chat_stats::aggregator::StatisticEntry;
use chat_stats::aggregator::process_messages;
use chat_stats::model::Embed;
use chat_stats::model::Message;
use chat_stats::HOUR_NANOS;

const MINUTE_NANOS: i64 = 60_000_000_000;

fn trigger(t: i64) -> Message {
    Message { timestamp: t, content: String::from("mb!stats"), embeds: Vec::new() }
}

fn data(t: i64, description: &str) -> Message {
    Message {
        timestamp: t,
        content: String::new(),
        embeds: vec![Embed { description: Some(String::from(description)) }],
    }
}

fn sums(entries: &[StatisticEntry]) -> Vec<(i64, u64, u64)> {
    entries.iter().map(|e| (e.timestamp, e.servers_sum, e.members_sum)).collect()
}

#[test]
fn trigger_closes_prior_window() {
    let t0: i64 = 1_000_000_000;
    let t1 = t0 + 5 * MINUTE_NANOS;
    let out = process_messages(&vec![trigger(t0), trigger(t1)]);
    assert_eq!(sums(&out), vec![(t0, 0, 0), (t1, 0, 0)]);
}

#[test]
fn expiry_is_absolute_and_opens_nothing() {
    let t0: i64 = 1_000_000_000;
    let late = t0 + 61 * MINUTE_NANOS;
    let out = process_messages(&vec![trigger(t0), data(late, "Servers: ``42``")]);
    assert_eq!(sums(&out), vec![(t0, 0, 0)]);
}

#[test]
fn extraction_feeds_the_right_sum() {
    let t0: i64 = 0;
    let out = process_messages(&vec![
        trigger(t0),
        data(t0 + MINUTE_NANOS, "Servers: ``42``"),
        data(t0 + 2 * MINUTE_NANOS, "Users: ``7``"),
    ]);
    assert_eq!(sums(&out), vec![(t0, 42, 7)]);
}

#[test]
fn sums_accumulate_across_messages() {
    let t0: i64 = 0;
    let out = process_messages(&vec![
        trigger(t0),
        data(t0 + MINUTE_NANOS, "Servers: ``10`` Users: ``1``"),
        data(t0 + 2 * MINUTE_NANOS, "Servers: ``5`` Users: ``2``"),
    ]);
    assert_eq!(sums(&out), vec![(t0, 15, 3)]);
}

#[test]
fn end_of_stream_flush() {
    let t0: i64 = 77;
    let out = process_messages(&vec![trigger(t0)]);
    assert_eq!(sums(&out), vec![(t0, 0, 0)]);
}

#[test]
fn no_trigger_no_output() {
    let out = process_messages(&vec![
        data(0, "Servers: ``42``"),
        data(MINUTE_NANOS, "Users: ``7``"),
    ]);
    assert!(out.is_empty());
}

#[test]
fn trigger_must_match_exactly() {
    let out = process_messages(&vec![
        Message { timestamp: 0, content: String::from(" mb!stats"), embeds: Vec::new() },
        Message { timestamp: 1, content: String::from("mb!stats "), embeds: Vec::new() },
        Message { timestamp: 2, content: String::from("MB!stats"), embeds: Vec::new() },
    ]);
    assert!(out.is_empty());
}

#[test]
fn trigger_embeds_contribute_nothing() {
    let t0: i64 = 0;
    let mut msg = trigger(t0 + MINUTE_NANOS);
    msg.embeds = vec![Embed { description: Some(String::from("Servers: ``42``")) }];
    let out = process_messages(&vec![trigger(t0), msg]);
    assert_eq!(sums(&out), vec![(t0, 0, 0), (t0 + MINUTE_NANOS, 0, 0)]);
}

#[test]
fn only_first_embed_is_consulted() {
    let t0: i64 = 0;
    let msg = Message {
        timestamp: t0 + MINUTE_NANOS,
        content: String::new(),
        embeds: vec![
            Embed { description: None },
            Embed { description: Some(String::from("Servers: ``42``")) },
        ],
    };
    let out = process_messages(&vec![trigger(t0), msg]);
    assert_eq!(sums(&out), vec![(t0, 0, 0)]);
}

#[test]
fn exactly_one_hour_is_not_expired() {
    let t0: i64 = 0;
    let out = process_messages(&vec![
        trigger(t0),
        data(t0 + HOUR_NANOS, "Servers: ``3``"),
    ]);
    assert_eq!(sums(&out), vec![(t0, 3, 0)]);
}

#[test]
fn one_nanosecond_past_the_hour_expires() {
    let t0: i64 = 0;
    let out = process_messages(&vec![
        trigger(t0),
        data(t0 + HOUR_NANOS + 1, "Servers: ``3``"),
    ]);
    assert_eq!(sums(&out), vec![(t0, 0, 0)]);
}

#[test]
fn stepwise_aggregator_emits_on_close() {
    let t0: i64 = 0;
    let mut agg = Aggregator::new();
    assert!(agg.step(&trigger(t0)).is_none());
    assert!(agg.step(&data(t0 + MINUTE_NANOS, "Users: ``9``")).is_none());
    let closed = agg.step(&trigger(t0 + 2 * MINUTE_NANOS)).unwrap();
    assert_eq!((closed.timestamp, closed.servers_sum, closed.members_sum), (t0, 0, 9));
    let flushed = agg.finish().unwrap();
    assert_eq!(
        (flushed.timestamp, flushed.servers_sum, flushed.members_sum),
        (t0 + 2 * MINUTE_NANOS, 0, 0)
    );
    assert!(agg.finish().is_none());
}

#[test]
fn full_scenario_two_windows() {
    let t0: i64 = 1_600_000_000_000_000_000;
    let out = process_messages(&vec![
        trigger(t0),
        data(t0 + 5 * MINUTE_NANOS, "Servers: ``10``"),
        trigger(t0 + 70 * MINUTE_NANOS),
    ]);
    assert_eq!(sums(&out), vec![(t0, 10, 0), (t0 + 70 * MINUTE_NANOS, 0, 0)]);
}
