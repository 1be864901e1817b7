use cosmo_store::common::i64_event_version::EventVersion;
use cosmo_store::ids::is_id;
use cosmo_store::sql::{
    commands_table_name, events_table_name, like_pattern, range_clause, streams_table_name,
};
use cosmo_store::types::event_read_range::EventsReadRange;
use cosmo_store::types::stream_read_filter::{chars_of, stands_at, stands_in, StreamsReadFilter};
use uuid::Uuid;

fn starts_with(part: &str) -> StreamsReadFilter {
    StreamsReadFilter::StartsWith(part.to_string())
}

fn ends_with(part: &str) -> StreamsReadFilter {
    StreamsReadFilter::EndsWith(part.to_string())
}

fn contains(part: &str) -> StreamsReadFilter {
    StreamsReadFilter::Contains(part.to_string())
}

#[test]
fn all_streams_selects_every_name() {
    assert!(StreamsReadFilter::AllStreams.selects(""));
    assert!(StreamsReadFilter::AllStreams.selects("TestStream_1"));
}

#[test]
fn starts_with_selects_by_prefix() {
    assert!(starts_with("Test").selects("TestStream_1"));
    assert!(starts_with("").selects("TestStream_1"));
    assert!(starts_with("").selects(""));
    assert!(starts_with("TestStream_1").selects("TestStream_1"));
    assert!(!starts_with("TestStream_12").selects("TestStream_1"));
    assert!(!starts_with("est").selects("TestStream_1"));
    assert!(!starts_with("test").selects("TestStream_1"));
    assert!(!starts_with("T").selects(""));
}

#[test]
fn ends_with_selects_by_suffix() {
    assert!(ends_with("_1").selects("TestStream_1"));
    assert!(ends_with("").selects("TestStream_1"));
    assert!(ends_with("").selects(""));
    assert!(ends_with("TestStream_1").selects("TestStream_1"));
    assert!(!ends_with("xTestStream_1").selects("TestStream_1"));
    assert!(!ends_with("_").selects("TestStream_1"));
    assert!(!ends_with("Test").selects("TestStream_1"));
}

#[test]
fn contains_selects_by_substring() {
    assert!(contains("Stream").selects("TestStream_1"));
    assert!(contains("Test").selects("TestStream_1"));
    assert!(contains("_1").selects("TestStream_1"));
    assert!(contains("").selects("TestStream_1"));
    assert!(contains("").selects(""));
    assert!(contains("aab").selects("aaab"));
    assert!(!contains("stream").selects("TestStream_1"));
    assert!(!contains("TestStream_12").selects("TestStream_1"));
    assert!(!contains("x").selects(""));
}

#[test]
fn filters_compare_characters_not_bytes() {
    assert!(starts_with("né").selects("née"));
    assert!(ends_with("ée").selects("née"));
    assert!(contains("é").selects("née"));
    assert!(!contains("e\u{301}").selects("née"));
    assert!(contains("日本").selects("イベント日本語"));
}

#[test]
fn filters_take_wildcards_literally() {
    assert!(!starts_with("%").selects("TestStream_1"));
    assert!(!contains("_2").selects("TestStream12"));
    assert!(contains("100%").selects("at 100% now"));
    assert!(ends_with("\\").selects("back\\"));
}

#[test]
fn chars_and_positions() {
    assert_eq!(chars_of("aé日"), vec!['a', 'é', '日']);
    assert_eq!(chars_of(""), Vec::<char>::new());
    let whole = chars_of("abcabc");
    assert!(stands_at(&chars_of("bc"), &whole, 1));
    assert!(stands_at(&chars_of("bc"), &whole, 4));
    assert!(!stands_at(&chars_of("bc"), &whole, 0));
    assert!(!stands_at(&chars_of("bc"), &whole, 5));
    assert!(!stands_at(&chars_of("bc"), &whole, 7));
    assert!(stands_at(&chars_of(""), &whole, 6));
    assert!(!stands_at(&chars_of(""), &whole, 7));
    assert!(stands_in(&chars_of("ca"), &whole));
    assert!(!stands_in(&chars_of("cb"), &whole));
    assert!(!stands_in(&chars_of("abcabca"), &whole));
}

#[test]
fn ranges_count_both_bounds() {
    let v = |n: i64| EventVersion::new(n);
    assert!(EventsReadRange::AllEvents.contains(&v(1)));
    assert!(EventsReadRange::AllEvents.contains(&v(0)));
    assert!(EventsReadRange::FromVersion(v(6)).contains(&v(6)));
    assert!(EventsReadRange::FromVersion(v(6)).contains(&v(10)));
    assert!(!EventsReadRange::FromVersion(v(6)).contains(&v(5)));
    assert!(EventsReadRange::ToVersion(v(5)).contains(&v(5)));
    assert!(EventsReadRange::ToVersion(v(5)).contains(&v(1)));
    assert!(!EventsReadRange::ToVersion(v(5)).contains(&v(0)));
    assert!(!EventsReadRange::ToVersion(v(5)).contains(&v(6)));
    let range = EventsReadRange::VersionRange {
        from_version: v(5),
        to_version: v(7),
    };
    assert!(range.contains(&v(5)));
    assert!(range.contains(&v(7)));
    assert!(!range.contains(&v(4)));
    assert!(!range.contains(&v(8)));
    let upside_down = EventsReadRange::VersionRange {
        from_version: v(7),
        to_version: v(5),
    };
    for n in 0..10 {
        assert!(!upside_down.contains(&v(n)));
    }
}

#[test]
fn bounds_of_ranges() {
    let v = |n: i64| EventVersion::new(n);
    assert_eq!(EventsReadRange::AllEvents.bounds(), (None, None));
    assert_eq!(EventsReadRange::FromVersion(v(6)).bounds(), (Some(6), None));
    assert_eq!(EventsReadRange::ToVersion(v(5)).bounds(), (Some(1), Some(5)));
    assert_eq!(
        EventsReadRange::VersionRange {
            from_version: v(5),
            to_version: v(7)
        }
        .bounds(),
        (Some(5), Some(7))
    );
}

#[test]
fn range_clauses_bind_the_bounds_in_order() {
    let v = |n: i64| EventVersion::new(n);
    assert_eq!(
        range_clause(&EventsReadRange::AllEvents),
        (String::new(), Vec::new())
    );
    assert_eq!(
        range_clause(&EventsReadRange::FromVersion(v(6))),
        (" and version >= $2".to_string(), vec![6])
    );
    assert_eq!(
        range_clause(&EventsReadRange::ToVersion(v(5))),
        (" and version >= $2 and version <= $3".to_string(), vec![1, 5])
    );
    assert_eq!(
        range_clause(&EventsReadRange::VersionRange {
            from_version: v(5),
            to_version: v(7)
        }),
        (" and version >= $2 and version <= $3".to_string(), vec![5, 7])
    );
}

#[test]
fn table_names_carry_the_name_of_the_store() {
    assert_eq!(streams_table_name("person"), "cs_streams_person");
    assert_eq!(events_table_name("person"), "cs_events_person");
    assert_eq!(commands_table_name("person"), "cs_commands_person");
    assert_eq!(streams_table_name(""), "cs_streams_");
}

#[test]
fn like_patterns_escape_what_like_reads_specially() {
    assert_eq!(like_pattern(&StreamsReadFilter::AllStreams), None);
    assert_eq!(like_pattern(&starts_with("Test")), Some("Test%".to_string()));
    assert_eq!(like_pattern(&ends_with("_1")), Some("%\\_1".to_string()));
    assert_eq!(like_pattern(&contains("100%")), Some("%100\\%%".to_string()));
    assert_eq!(like_pattern(&contains("a\\b")), Some("%a\\\\b%".to_string()));
    assert_eq!(like_pattern(&starts_with("")), Some("%".to_string()));
    assert_eq!(like_pattern(&contains("")), Some("%%".to_string()));
    assert_eq!(like_pattern(&contains("née_")), Some("%née\\_%".to_string()));
}

#[test]
fn identifiers_compare_by_value() {
    let a = Uuid::from_u128(7);
    let b = Uuid::from_u128(8);
    assert!(is_id(&Some(a), &a));
    assert!(is_id(&Some(a), &Uuid::from_u128(7)));
    assert!(!is_id(&Some(a), &b));
    assert!(!is_id(&None, &a));
    assert!(!is_id(&None, &Uuid::nil()));
}

#[test]
fn filters_clone_to_equal_filters() {
    let filter = contains("abc");
    match filter.clone() {
        StreamsReadFilter::Contains(part) => assert_eq!(part, "abc"),
        other => panic!("{:?}", other),
    }
    match StreamsReadFilter::AllStreams.clone() {
        StreamsReadFilter::AllStreams => {}
        other => panic!("{:?}", other),
    }
}
