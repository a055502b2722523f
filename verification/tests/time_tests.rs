use save_manager::time::{last_updated_text, timestamp_text};

#[test]
fn timestamps_render_in_utc() {
    assert_eq!(timestamp_text(0), "1970-01-01 00:00:00");
    assert_eq!(timestamp_text(1680000000), "2023-03-28 10:40:00");
    assert_eq!(timestamp_text(-1), "1969-12-31 23:59:59");
    assert_eq!(timestamp_text(i32::MAX), "2038-01-19 03:14:07");
}

#[test]
fn never_updated_saves() {
    assert_eq!(last_updated_text(None), "Never");
    assert_eq!(last_updated_text(Some(86400)), "1970-01-02 00:00:00");
}
