use cosmo_store::common::i64_event_version;
use cosmo_store::common::u32_event_version;
use cosmo_store::traits::version::Version;
use cosmo_store::types::expected_version::ExpectedVersion;

#[test]
fn i64_event_version_test_version() {
    let version = i64_event_version::EventVersion(1_i64);
    assert_eq!(1_i64, version.0);
}

#[test]
fn i64_event_version_next_version() {
    let version = i64_event_version::EventVersion(1_i64);
    let res = version.next_version(&ExpectedVersion::Any).unwrap();
    assert_eq!(2_i64, res.0)
}

#[test]
fn u32_event_version_test_version() {
    let version = u32_event_version::EventVersion(1_u32);
    assert_eq!(1_u32, version.0);
}

#[test]
fn u32_event_version_next_version() {
    let version = u32_event_version::EventVersion(1_u32);
    let res = version.next_version(&ExpectedVersion::Any).unwrap();
    assert_eq!(2_u32, res.0)
}

#[test]
fn lib_it_works() {
    assert_eq!(2 + 2, 4);
}

#[test]
fn event_version_it_works() {
    assert_eq!(2 + 2, 4);
}
