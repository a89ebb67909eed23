use imessage_database::dates::{get_local_time, get_offset, readable_diff};
use imessage_database::error::{AttachmentError, MessageError, QueryContextError};
use imessage_database::message::service_from_name;
use imessage_database::message_types::Service;

#[test]
fn offset_is_the_2001_epoch() {
    assert_eq!(get_offset(), 978_307_200);
}

#[test]
fn local_time_in_seconds() {
    assert_eq!(get_local_time(&1_500_000_000_000, &get_offset()), Ok(978_308_700));
    assert_eq!(get_local_time(&-1_500_000_000, &0), Ok(-1));
    assert_eq!(
        get_local_time(&i64::MAX, &i64::MAX),
        Err(MessageError::InvalidTimestamp(i64::MAX))
    );
    assert_eq!(
        get_local_time(&0, &8_210_266_876_800),
        Err(MessageError::InvalidTimestamp(0))
    );
    assert_eq!(get_local_time(&0, &8_210_266_876_799), Ok(8_210_266_876_799));
    assert_eq!(get_local_time(&0, &-8_334_601_228_800), Ok(-8_334_601_228_800));
    assert_eq!(
        get_local_time(&0, &-8_334_601_228_801),
        Err(MessageError::InvalidTimestamp(0))
    );
}

#[test]
fn diff_parts_and_plurals() {
    assert_eq!(readable_diff(Ok(0), Ok(90061)), Some("1 day, 1 hour, 1 minute, 1 second".to_string()));
    assert_eq!(readable_diff(Ok(0), Ok(2 * 86400 + 120)), Some("2 days, 2 minutes".to_string()));
    assert_eq!(readable_diff(Ok(5), Ok(5)), Some(String::new()));
    assert_eq!(readable_diff(Ok(6), Ok(5)), None);
    assert_eq!(readable_diff(Err(MessageError::NoText), Ok(5)), None);
}

#[test]
fn services_are_trimmed() {
    assert_eq!(service_from_name("SMS"), Service::SMS);
    assert_eq!(service_from_name("Jabber"), Service::Other("Jabber"));
}

#[test]
fn query_context_message() {
    assert_eq!(
        QueryContextError::InvalidDate("2020-13-01".to_string()).message(),
        "Invalid date provided: 2020-13-01! Must be in format YYYY-MM-DD."
    );
}

#[test]
fn attachment_messages() {
    assert_eq!(
        AttachmentError::FileNotFound("/tmp/a.png".to_string()).message(),
        "File not found at location: /tmp/a.png"
    );
    let why = std::io::Error::new(std::io::ErrorKind::Other, "disk on fire");
    assert_eq!(
        AttachmentError::Unreadable("/tmp/b.png".to_string(), why).message(),
        "Unable to read file at /tmp/b.png: disk on fire"
    );
}
