use rustodian::log_buffer::{LogBuffer, LogLines};

#[test]
fn test_push_and_snapshot() {
    let buf = LogBuffer::new();
    buf.push_line("hello".to_string());
    buf.push_line("world".to_string());
    assert_eq!(buf.snapshot(), "hello\nworld\n");
    assert_eq!(buf.line_count(), 2);
}

#[test]
fn test_eviction() {
    let buf = LogBuffer::with_capacity(3);
    for i in 0..5 {
        buf.push_line(format!("line {i}"));
    }
    assert_eq!(buf.line_count(), 3);
    // Should contain lines 2, 3, 4 (oldest evicted)
    let snap = buf.snapshot();
    assert!(snap.contains("line 2"));
    assert!(snap.contains("line 4"));
    assert!(!snap.contains("line 0"));
}

#[test]
fn test_drain_all() {
    let buf = LogBuffer::new();
    buf.push_line("a".to_string());
    buf.push_line("b".to_string());
    let drained = buf.drain_all();
    assert_eq!(drained, "a\nb\n");
    assert_eq!(buf.line_count(), 0);
    assert_eq!(buf.snapshot(), "");
}

#[test]
fn test_clone_shares_state() {
    let buf1 = LogBuffer::new();
    let buf2 = buf1.clone();
    buf1.push_line("from buf1".to_string());
    assert_eq!(buf2.line_count(), 1);
}

#[test]
fn zero_capacity_keeps_no_lines() {
    let buf = LogBuffer::with_capacity(0);
    buf.push_line("first".to_string());
    buf.push_line("second".to_string());
    assert_eq!(buf.line_count(), 0);
    assert_eq!(buf.snapshot(), "");
    let mut lines = LogLines::with_capacity(0);
    lines.push_line("x".to_string());
    assert_eq!(lines.line_count(), 0);
    assert_eq!(lines.drain_all(), "");
}

#[test]
fn fresh_buffer_keeps_the_latest_lines() {
    for (cap, n) in [(3usize, 2usize), (3, 3), (3, 7), (1, 4)] {
        let mut lines = LogLines::with_capacity(cap);
        for i in 0..n {
            lines.push_line(format!("l{i}"));
        }
        let kept = n.min(cap);
        assert_eq!(lines.line_count(), kept);
        let expected: String = (n - kept..n).map(|i| format!("l{i}\n")).collect();
        assert_eq!(lines.snapshot(), expected);
    }
}

#[test]
fn default_buffer_is_empty() {
    let buf = LogBuffer::default();
    assert_eq!(buf.line_count(), 0);
    assert_eq!(buf.snapshot(), "");
}

#[test]
fn log_lines_evict_oldest_first() {
    let mut lines = LogLines::with_capacity(2);
    lines.push_line("x".to_string());
    lines.push_line("y".to_string());
    lines.push_line("z".to_string());
    assert_eq!(lines.line_count(), 2);
    assert_eq!(lines.snapshot(), "y\nz\n");
    assert_eq!(lines.drain_all(), "y\nz\n");
    assert_eq!(lines.line_count(), 0);
}
