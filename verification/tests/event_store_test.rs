use cosmo_store::common::i64_event_version::EventVersion;
use cosmo_store::error::StoreError;
use cosmo_store::in_memory::event_store::EventStoreInMemory;
use cosmo_store::traits::event_store::EventStore;
use cosmo_store::types::event_read::EventRead;
use cosmo_store::types::event_read_range::EventsReadRange;
use cosmo_store::types::event_write::EventWrite;
use cosmo_store::types::expected_version::ExpectedVersion;
use std::fmt::Debug;
use std::ops::RangeInclusive;
use uuid::Uuid;

#[derive(Clone, Debug)]
pub struct Payload {
    pub name: String,
}

#[derive(Clone, Debug)]
pub struct Meta {}

pub fn check_position<V, G>(greater_than: G, return_val: V) -> V
where
    G: FnOnce() -> bool,
    V: Debug + Eq + PartialEq,
{
    assert_eq!(greater_than(), true);
    return_val
}

pub fn get_event<Payload, Meta>(i: i32, data: Payload) -> EventWrite<Payload, Meta> {
    let (corr, caus) = match (i % 2, i % 3) {
        (0, _) => (Some(Uuid::new_v4()), None),
        (_, 0) => (None, Some(Uuid::new_v4())),
        (_, _) => (None, None),
    };

    EventWrite {
        id: Uuid::new_v4(),
        correlation_id: corr,
        causation_id: caus,
        name: format!("Created_{}", i),
        data,
        metadata: None,
    }
}

pub fn get_events(x: RangeInclusive<i32>) -> Vec<EventWrite<Payload, Meta>> {
    x.map(|x| {
        get_event(
            x,
            Payload {
                name: format!("Todo Event {}", x),
            },
        )
    })
    .collect()
}

pub fn get_stream_id() -> String {
    format!("TestStream_{}", Uuid::new_v4().to_string())
}

fn get_store() -> EventStoreInMemory<Payload, Meta> {
    EventStoreInMemory::new()
}

fn are_ascending(items: Vec<EventRead<Payload, Meta, EventVersion>>) {
    items.iter().fold(0_i64, |acc, item| {
        check_position(|| item.version.0 > acc, item.version.0)
    });
}

fn todo_event() -> EventWrite<Payload, Meta> {
    get_event(
        1,
        Payload {
            name: "Todo Event".to_string(),
        },
    )
}

#[test]
fn hello_world() {
    let _store = get_store();
    assert_eq!(2 + 2, 4);
}

#[test]
fn event_store_test_hello_world_async() {
    assert_eq!(2 + 2, 4);
}

#[test]
fn store_setup() {
    let _store = get_store();
    assert!(true);
}

#[test]
fn event_store_test_append_event() {
    let mut store = get_store();
    let stream_id = get_stream_id();
    let event = get_event(
        0,
        Payload {
            name: "Todo Event".to_string(),
        },
    );
    let res = store
        .append_event(&stream_id, &ExpectedVersion::Any, &event)
        .unwrap();
    assert_eq!(res.version.0, 1_i64);
    assert_eq!(res.name, "Created_0");
    assert_eq!(res.id, event.id);
    assert_eq!(res.stream_id, stream_id);
    assert_eq!(store.get_stream(&stream_id).unwrap().last_version.0, 1_i64);
}

#[test]
fn event_store_test_append_100_events() {
    let mut store = get_store();
    let stream_id = get_stream_id();
    let events: Vec<EventWrite<Payload, Meta>> = get_events(1..=100);
    let res = store
        .append_events(&stream_id, &ExpectedVersion::Any, events)
        .unwrap();
    assert_eq!(res.len(), 100);
    for (i, read) in res.iter().enumerate() {
        assert_eq!(read.version.0, i as i64 + 1);
        assert_eq!(read.name, format!("Created_{}", i + 1));
    }
    are_ascending(res);
    assert_eq!(store.get_stream(&stream_id).unwrap().last_version.0, 100_i64);
}

#[test]
fn event_store_test_get_single_event() {
    let mut store = get_store();
    let stream_id = get_stream_id();
    let events: Vec<EventWrite<Payload, Meta>> = get_events(1..=10);
    let _ = store
        .append_events(&stream_id, &ExpectedVersion::Any, events)
        .unwrap();
    let res = store
        .get_event(&stream_id, &EventVersion::new(3_i64))
        .unwrap();
    assert_eq!(res.version.0, 3_i64);
    assert_eq!(res.name, "Created_3");
}

#[test]
fn event_store_test_get_all_events() {
    let mut store = get_store();
    let stream_id = get_stream_id();
    let events: Vec<EventWrite<Payload, Meta>> = get_events(1..=10);
    let _ = store
        .append_events(&stream_id, &ExpectedVersion::Any, events)
        .unwrap();
    let res = store
        .get_events(&stream_id, &EventsReadRange::AllEvents)
        .unwrap();
    assert_eq!(res.len(), 10);
    are_ascending(res);
}

#[test]
fn event_store_test_get_events_from_version() {
    let mut store = get_store();
    let stream_id = get_stream_id();
    let events: Vec<EventWrite<Payload, Meta>> = get_events(1..=10);
    let _ = store
        .append_events(&stream_id, &ExpectedVersion::Any, events)
        .unwrap();
    let res = store
        .get_events(
            &stream_id,
            &EventsReadRange::FromVersion(EventVersion::new(6)),
        )
        .unwrap();
    assert_eq!(res.len(), 5);
    assert_eq!(
        res.iter().map(|e| e.version.0).collect::<Vec<i64>>(),
        vec![6, 7, 8, 9, 10]
    );
    are_ascending(res);
}

#[test]
fn event_store_test_get_events_to_version() {
    let mut store = get_store();
    let stream_id = get_stream_id();
    let events: Vec<EventWrite<Payload, Meta>> = get_events(1..=10);
    let _ = store
        .append_events(&stream_id, &ExpectedVersion::Any, events)
        .unwrap();
    let res = store
        .get_events(&stream_id, &EventsReadRange::ToVersion(EventVersion::new(5)))
        .unwrap();
    assert_eq!(res.len(), 5);
    assert_eq!(
        res.iter().map(|e| e.version.0).collect::<Vec<i64>>(),
        vec![1, 2, 3, 4, 5]
    );
    are_ascending(res);
}

#[test]
fn event_store_test_get_events_version_range() {
    let mut store = get_store();
    let stream_id = get_stream_id();
    let events: Vec<EventWrite<Payload, Meta>> = get_events(1..=10);
    let _ = store
        .append_events(&stream_id, &ExpectedVersion::Any, events)
        .unwrap();
    let res = store
        .get_events(
            &stream_id,
            &EventsReadRange::VersionRange {
                from_version: EventVersion::new(5),
                to_version: EventVersion::new(7),
            },
        )
        .unwrap();
    assert_eq!(res.len(), 3);
    assert_eq!(
        res.iter().map(|e| e.version.0).collect::<Vec<i64>>(),
        vec![5, 6, 7]
    );
    are_ascending(res);
}

#[test]
fn event_store_test_fails_to_append_to_existing_version() {
    let mut store = get_store();
    let stream_id = get_stream_id();
    let _ = store
        .append_event(&stream_id, &ExpectedVersion::Any, &todo_event())
        .unwrap();
    let res = store.append_event(
        &stream_id,
        &ExpectedVersion::Exact(EventVersion::new(1_i64)),
        &todo_event(),
    );
    assert!(res.is_err());
    assert_eq!(
        res.unwrap_err(),
        StoreError::VersionMismatch {
            next: 2,
            expected: 1
        }
    );
    assert_eq!(store.get_stream(&stream_id).unwrap().last_version.0, 1_i64);
}

#[test]
fn event_store_test_fails_to_append_to_existing_stream_if_is_not_expected_to_exist() {
    let mut store = get_store();
    let stream_id = get_stream_id();
    let _ = store
        .append_event(&stream_id, &ExpectedVersion::Any, &todo_event())
        .unwrap();
    let res = store.append_event(&stream_id, &ExpectedVersion::NoStream, &todo_event());
    assert!(res.is_err());
    assert_eq!(res.unwrap_err(), StoreError::StreamExists { existing: 1 });
}

#[test]
fn event_store_test_appending_no_events_does_not_affect_stream_metadata() {
    let mut store = get_store();
    let stream_id = get_stream_id();
    let _ = store
        .append_event(
            &stream_id,
            &ExpectedVersion::Exact(EventVersion::new(1_i64)),
            &todo_event(),
        )
        .unwrap();
    let stream = store.get_stream(&stream_id).unwrap();
    let _ = store
        .append_events(&stream_id, &ExpectedVersion::Any, Vec::new())
        .unwrap();
    let stream_after_append = store.get_stream(&stream_id).unwrap();
    assert_eq!(stream, stream_after_append);
}

#[test]
fn event_store_test_appending_1000_events_can_be_read_back() {
    let mut store = get_store();
    let stream_id = get_stream_id();
    for i in 0..10 {
        let events = get_events(i * 100..=(i * 100) + 99);
        let _ = store
            .append_events(&stream_id, &ExpectedVersion::Any, events)
            .unwrap();
    }
    let stream = store.get_stream(&stream_id).unwrap();
    let events = store
        .get_events(&stream_id, &EventsReadRange::AllEvents)
        .unwrap();
    assert_eq!(stream.last_version.0, 1000);
    assert_eq!(events.len(), 1000);
    are_ascending(events);
}

fn add_events_to_stream(
    store: &mut EventStoreInMemory<Payload, Meta>,
    corr_id: Uuid,
    i: i32,
) {
    let events = get_events(1..=10)
        .iter()
        .map(|x| EventWrite {
            correlation_id: Some(corr_id),
            ..x.clone()
        })
        .collect();
    let stream_id = format!("CORR_{0}", i);
    store
        .append_events(&stream_id, &ExpectedVersion::Any, events)
        .unwrap();
}

#[test]
fn event_store_test_can_read_events_by_correlation_id() {
    let mut store = get_store();
    let corr_id = Uuid::new_v4();
    for i in 1..=3 {
        add_events_to_stream(&mut store, corr_id, i);
    }
    let different_corr_id = Uuid::new_v4();
    for i in 1..=3 {
        add_events_to_stream(&mut store, different_corr_id, i);
    }
    let events = store.get_events_by_correlation_id(&corr_id).unwrap();
    let mut unique_streams: Vec<String> = events.iter().map(|x| x.stream_id.to_owned()).collect();
    unique_streams.sort();
    unique_streams.dedup();
    assert_eq!(unique_streams, vec!["CORR_1", "CORR_2", "CORR_3"]);
    assert_eq!(events.len(), 30);
}
