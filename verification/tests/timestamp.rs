use jetfeed::timestamp::{event_label, heartbeat_timestamp, label_with};

#[test]
fn heartbeat_has_a_time_after_the_first_event() {
    assert_eq!(heartbeat_timestamp(0), None);
    assert_eq!(heartbeat_timestamp(-5), None);
    assert_eq!(
        heartbeat_timestamp(1662921288000000),
        Some("2022-09-11T18:34:48+00:00".to_string())
    );
    assert_eq!(heartbeat_timestamp(i64::MAX), None);
}

#[test]
fn labels_fall_back_to_microseconds() {
    assert_eq!(event_label(1662921288000000), "2022-09-11T18:34:48+00:00");
    assert_eq!(event_label(i64::MAX), "9223372036854775807 microseconds");
    assert_eq!(label_with(3, None), "3 microseconds");
    assert_eq!(label_with(3, Some("noon".to_string())), "noon");
}
