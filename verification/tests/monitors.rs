use screen_light::monitors::{clamp_brightness, device_name, get_cursor_monitor_index, Monitor, Rect};

#[test]
fn contains_point_is_half_open() {
    let r = Rect { left: 0, top: 0, right: 100, bottom: 50 };
    assert!(r.contains_point(0, 0));
    assert!(r.contains_point(99, 49));
    assert!(!r.contains_point(100, 10));
    assert!(!r.contains_point(10, 50));
    assert!(!r.contains_point(-1, 10));
}

#[test]
fn cursor_index_picks_first_match() {
    let a = Monitor { hmonitor: 1, name: String::new(), bounds: Rect { left: 0, top: 0, right: 100, bottom: 100 } };
    let b = Monitor { hmonitor: 2, name: String::new(), bounds: Rect { left: 50, top: 0, right: 200, bottom: 100 } };
    let ms = vec![a, b];
    assert_eq!(get_cursor_monitor_index(&ms, Some((60, 10))), Some(0));
    assert_eq!(get_cursor_monitor_index(&ms, Some((150, 10))), Some(1));
    assert_eq!(get_cursor_monitor_index(&ms, Some((250, 10))), None);
    assert_eq!(get_cursor_monitor_index(&ms, None), None);
    assert_eq!(get_cursor_monitor_index(&[], Some((0, 0))), None);
}

#[test]
fn brightness_is_capped_at_100() {
    assert_eq!(clamp_brightness(0), 0);
    assert_eq!(clamp_brightness(75), 75);
    assert_eq!(clamp_brightness(100), 100);
    assert_eq!(clamp_brightness(101), 100);
    assert_eq!(clamp_brightness(u32::MAX), 100);
}

#[test]
fn device_name_stops_at_nul() {
    let mut buf = [0u16; 32];
    for (i, u) in "\\\\.\\DISPLAY2".encode_utf16().enumerate() {
        buf[i] = u;
    }
    buf[20] = 'X' as u16;
    assert_eq!(device_name(&buf), "\\\\.\\DISPLAY2");
    let full: Vec<u16> = "ABC".encode_utf16().collect();
    assert_eq!(device_name(&full), "ABC");
    assert_eq!(device_name(&[0xD800, 0x41, 0]), "\u{FFFD}A");
    assert_eq!(device_name(&[0xD83D, 0xDE00, 0x42, 0, 0x43]), "\u{1F600}B");
    assert_eq!(device_name(&[0xDC00, 0xD800]), "\u{FFFD}\u{FFFD}");
}
