use friidump::log::{prefix, shown, timestamp, Level};

#[test]
fn prefixes_of_each_level() {
    assert_eq!(prefix(Level::Normal, None, "01:02:03"), "[01:02:03] ");
    assert_eq!(prefix(Level::Warning, None, "01:02:03"), "[01:02:03] WARNING: ");
    assert_eq!(prefix(Level::Error, Some("disc"), "23:59:59"), "[23:59:59/disc] ERROR: ");
    assert_eq!(prefix(Level::Debug, Some("x"), "00:00:00"), "[00:00:00/x] DEBUG: ");
}

#[test]
fn timestamps_are_time_of_day() {
    assert_eq!(timestamp(0), "00:00:00");
    assert_eq!(timestamp(86_399), "23:59:59");
    assert_eq!(timestamp(86_400 + 3_600 + 61), "01:01:01");
}

#[test]
fn debug_messages_need_debugging_enabled() {
    assert!(shown(Level::Normal, false));
    assert!(shown(Level::Error, false));
    assert!(!shown(Level::Debug, false));
    assert!(shown(Level::Debug, true));
}
