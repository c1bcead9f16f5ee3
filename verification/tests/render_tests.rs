use chat_stats::aggregator::StatisticEntry;
use chat_stats::model::Channel;
use chat_stats::model::Embed;
use chat_stats::model::Guild;
use chat_stats::model::Message;
use chat_stats::model::Root;
use chat_stats::render::csv_header;
use chat_stats::render::output_file_name;
use chat_stats::render::process_export;
use chat_stats::render::render_csv;
use chat_stats::render::u64_to_string;

#[test]
fn decimal_rendering() {
    assert_eq!(u64_to_string(0), "0");
    assert_eq!(u64_to_string(7), "7");
    assert_eq!(u64_to_string(42), "42");
    assert_eq!(u64_to_string(1000), "1000");
    assert_eq!(u64_to_string(u64::MAX), "18446744073709551615");
}

#[test]
fn header_bytes() {
    assert_eq!(csv_header(), b"timestamp,servers,members\n".to_vec());
}

#[test]
fn whole_artifact_bytes() {
    let entries = vec![
        StatisticEntry { timestamp: 0, servers_sum: 10, members_sum: 0 },
        StatisticEntry { timestamp: 5_000_000, servers_sum: 3, members_sum: 12345 },
    ];
    let bytes = render_csv(&entries);
    let expected = "timestamp,servers,members\n\
                    1970-01-01T00:00:00+00:00,10,0\n\
                    1970-01-01T00:00:00.005+00:00,3,12345\n";
    assert_eq!(String::from_utf8(bytes).unwrap(), expected);
}

#[test]
fn timestamp_column_agrees_with_chrono() {
    let ns: i64 = 1_617_375_589_067_000_000;
    let entries = vec![StatisticEntry { timestamp: ns, servers_sum: 1, members_sum: 2 }];
    let bytes = render_csv(&entries);
    let text = String::from_utf8(bytes).unwrap();
    let expected_ts = chrono::DateTime::<chrono::Utc>::from_timestamp_nanos(ns).to_rfc3339();
    let row = text.lines().nth(1).unwrap();
    assert_eq!(row, format!("{},1,2", expected_ts));
}

#[test]
fn empty_run_is_header_only() {
    let bytes = render_csv(&Vec::new());
    assert_eq!(String::from_utf8(bytes).unwrap(), "timestamp,servers,members\n");
}

#[test]
fn artifact_name() {
    assert_eq!(output_file_name("1234", "5678"), "output-1234-5678.csv");
}

#[test]
fn category_placeholder() {
    let with = Channel {
        id: String::from("c"),
        category: Some(String::from("General")),
        name: String::from("stats"),
    };
    let without = Channel { id: String::from("c"), category: None, name: String::from("stats") };
    assert_eq!(with.category_or_placeholder(), "General");
    assert_eq!(without.category_or_placeholder(), "N/A");
}

#[test]
fn process_export_names_and_renders() {
    let minute: i64 = 60_000_000_000;
    let root = Root {
        guild: Guild { id: String::from("g1"), name: String::from("Guild One") },
        channel: Channel {
            id: String::from("c1"),
            category: None,
            name: String::from("bots"),
        },
        messages: vec![
            Message { timestamp: 0, content: String::from("mb!stats"), embeds: Vec::new() },
            Message {
                timestamp: 5 * minute,
                content: String::new(),
                embeds: vec![Embed { description: Some(String::from("Servers: ``10``")) }],
            },
        ],
    };
    let out = process_export(&root);
    assert_eq!(out.file_name, "output-g1-c1.csv");
    assert_eq!(out.rows, 1);
    assert_eq!(
        String::from_utf8(out.data).unwrap(),
        "timestamp,servers,members\n1970-01-01T00:00:00+00:00,10,0\n"
    );
}
