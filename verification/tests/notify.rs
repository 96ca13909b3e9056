use screen_light::notify::records_name_file;

fn record(next: u32, name: &str) -> Vec<u8> {
    let units: Vec<u16> = name.encode_utf16().collect();
    let mut r = Vec::new();
    r.extend_from_slice(&next.to_le_bytes());
    r.extend_from_slice(&3u32.to_le_bytes());
    r.extend_from_slice(&((units.len() * 2) as u32).to_le_bytes());
    for u in units {
        r.extend_from_slice(&u.to_le_bytes());
    }
    r
}

#[test]
fn finds_name_in_first_record() {
    let buf = record(0, "config.yaml");
    assert!(records_name_file(&buf, buf.len(), &"config.yaml".to_string()));
    assert!(!records_name_file(&buf, buf.len(), &"other.yaml".to_string()));
}

#[test]
fn follows_next_offsets() {
    let first_len = record(0, "notes.txt").len() as u32;
    let mut buf = record(first_len + 2, "notes.txt");
    buf.extend_from_slice(&[0, 0]);
    buf.extend_from_slice(&record(0, "config.yaml"));
    assert!(records_name_file(&buf, buf.len(), &"config.yaml".to_string()));
    // Only the first record lies within the returned bytes.
    assert!(!records_name_file(&buf, 10, &"config.yaml".to_string()));
}

#[test]
fn stops_at_last_record() {
    let mut buf = record(0, "a.txt");
    buf.extend_from_slice(&record(0, "config.yaml"));
    assert!(!records_name_file(&buf, buf.len(), &"config.yaml".to_string()));
}

#[test]
fn truncated_records_are_not_read() {
    let buf = record(0, "config.yaml");
    assert!(!records_name_file(&buf[..buf.len() - 1], buf.len(), &"config.yaml".to_string()));
    assert!(!records_name_file(&buf[..8], 8, &"config.yaml".to_string()));
    assert!(!records_name_file(&[], 0, &"config.yaml".to_string()));
}
