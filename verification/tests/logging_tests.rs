use kagi_mcp::logging::{log_cutoff, should_remove_log, PidLineWriter, DEFAULT_LOG_RETENTION_DAYS};

#[test]
fn when_writer_created_then_prefix_should_carry_pid() {
    let w = PidLineWriter::new(4242);
    assert_eq!(w.prefix(), b"[pid=4242] ");
    assert_eq!(PidLineWriter::new(0).prefix(), b"[pid=0] ");
}

#[test]
fn when_bytes_hold_lines_then_each_line_should_come_out_whole() {
    let mut w = PidLineWriter::new(7);
    w.push_bytes(b"first\nsecond\npart");
    assert_eq!(w.take_line(), Some(b"first\n".to_vec()));
    assert_eq!(w.take_line(), Some(b"second\n".to_vec()));
    assert_eq!(w.take_line(), None);
    w.push_bytes(b"ial\n");
    assert_eq!(w.take_line(), Some(b"partial\n".to_vec()));
    assert_eq!(w.take_line(), None);
    assert_eq!(w.flush_line(), None);
}

#[test]
fn when_flushed_then_pending_bytes_should_come_out_once() {
    let mut w = PidLineWriter::new(7);
    w.push_bytes(b"no newline");
    assert_eq!(w.flush_line(), Some(b"no newline".to_vec()));
    assert_eq!(w.flush_line(), None);
}

#[test]
fn when_line_is_restored_then_it_should_be_pending_again() {
    let mut w = PidLineWriter::new(1);
    w.push_bytes(b"a\nb\n");
    let line = w.take_line().unwrap();
    w.restore(line);
    assert_eq!(w.take_line(), Some(b"a\n".to_vec()));
    assert_eq!(w.take_line(), None);
}

#[test]
fn when_log_is_rotated_and_old_then_it_should_be_removed() {
    let now: i128 = 1_700_000_000 * 1_000_000_000;
    let cutoff = log_cutoff(now, DEFAULT_LOG_RETENTION_DAYS);
    assert_eq!(cutoff, now - 30 * 86_400 * 1_000_000_000);
    assert!(should_remove_log("kagi-mcp.log.2024-01-01", cutoff - 1, cutoff));
    assert!(!should_remove_log("kagi-mcp.log.2024-01-01", cutoff, cutoff));
    assert!(!should_remove_log("kagi-mcp.log", cutoff - 1, cutoff));
    assert!(!should_remove_log("other.log.1", cutoff - 1, cutoff));
}
