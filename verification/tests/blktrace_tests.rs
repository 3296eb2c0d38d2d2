use cryptpilot::blktrace::{
    block_name, check_pages_fit, parse_dropped, BlockNameError, parse_trace_stream, parse_blk_io_trace, touched_pages, BlkIoTrace, BlkTraceError, BlkTraceEvent,
    BLK_TC_DISCARD, BLK_TC_READ, BLK_TC_SHIFT, BLK_TC_WRITE,
};

fn record(sector: u64, bytes: u32, category: u32) -> Vec<u8> {
    let mut b = vec![0u8; 48];
    b[0..4].copy_from_slice(&0x65617407u32.to_le_bytes());
    b[4..8].copy_from_slice(&9u32.to_le_bytes());
    b[16..24].copy_from_slice(&sector.to_le_bytes());
    b[24..28].copy_from_slice(&bytes.to_le_bytes());
    b[28..32].copy_from_slice(&((category << BLK_TC_SHIFT) | 1).to_le_bytes());
    b[44..46].copy_from_slice(&3u16.to_le_bytes());
    b
}

fn event(sector: u64, bytes: u32, category: u32) -> BlkTraceEvent {
    BlkTraceEvent { event: parse_blk_io_trace(&record(sector, bytes, category)).unwrap(), data: vec![] }
}

#[test]
fn decode_trace_record() {
    let t: BlkIoTrace = parse_blk_io_trace(&record(8, 4096, BLK_TC_READ)).unwrap();
    assert_eq!(t.magic, 0x65617407);
    assert_eq!(t.sequence, 9);
    assert_eq!(t.sector, 8);
    assert_eq!(t.bytes, 4096);
    assert_eq!(t.action, (BLK_TC_READ << BLK_TC_SHIFT) | 1);
    assert_eq!(t.error, 3);
}

#[test]
fn decode_trace_errors() {
    assert!(matches!(parse_blk_io_trace(&[0u8; 47]), Err(BlkTraceError::Truncated)));
    let mut b = record(0, 0, 0);
    b[0] = 0x06;
    assert!(matches!(parse_blk_io_trace(&b), Err(BlkTraceError::MagicMismatch)));
}

#[test]
fn event_categories() {
    let r = event(0, 512, BLK_TC_READ);
    assert!(r.is_read() && !r.is_write() && !r.is_discard());
    let w = event(0, 512, BLK_TC_WRITE);
    assert!(w.is_write() && !w.is_read());
    let d = event(0, 512, BLK_TC_WRITE | BLK_TC_DISCARD);
    assert!(d.is_discard() && d.is_write());
}

#[test]
fn pages_of_reads_and_writes() {
    let events = vec![
        event(8, 4096, BLK_TC_READ),
        event(0, 8192, BLK_TC_WRITE),
        event(16, 100, BLK_TC_READ),
        event(100, 4096, BLK_TC_WRITE | BLK_TC_DISCARD),
    ];
    assert!(check_pages_fit(&events, 512, 4096));
    let p = touched_pages(&events, 512, 4096);
    assert_eq!(p.r, vec![1, 2]);
    assert_eq!(p.w, vec![0, 1]);
    assert_eq!(p.rw, vec![1, 0, 2]);
}

#[test]
fn pages_that_do_not_fit() {
    let events = vec![event(u64::MAX / 512, 4096, BLK_TC_READ)];
    assert!(!check_pages_fit(&events, 512, 4096));
    assert!(!check_pages_fit(&[], 512, 0));
}

#[test]
fn relay_channel_and_dropped_paths() {
    assert_eq!(cryptpilot::blktrace::relay_channel_path("dm-3", 12), "/sys/kernel/debug/block/dm-3/trace12");
    assert_eq!(cryptpilot::blktrace::dropped_path("dm-3"), "/sys/kernel/debug/block/dm-3/dropped");
}

#[test]
fn dropped_counter_text() {
    assert_eq!(parse_dropped("0\n"), Some(0));
    assert_eq!(parse_dropped("  +42 \n"), Some(42));
    assert_eq!(parse_dropped("18446744073709551615"), Some(u64::MAX));
    assert_eq!(parse_dropped("18446744073709551616"), None);
    assert_eq!(parse_dropped("-1"), None);
    assert_eq!(parse_dropped("+"), None);
    assert_eq!(parse_dropped(""), None);
    assert_eq!(parse_dropped("1 2"), None);
}

#[test]
fn trace_stream_records() {
    let mut a = record(1, 512, BLK_TC_READ);
    a[46..48].copy_from_slice(&2u16.to_le_bytes());
    let mut stream = a.clone();
    stream.extend_from_slice(&[7, 8]);
    stream.extend_from_slice(&record(2, 512, BLK_TC_WRITE)[..46]);
    let mut b = record(3, 512, BLK_TC_WRITE);
    b[46..48].copy_from_slice(&0u16.to_le_bytes());
    let mut whole = a.clone();
    whole.extend_from_slice(&[7, 8]);
    whole.extend_from_slice(&b);
    let (events, used) = parse_trace_stream(&whole).unwrap();
    assert_eq!(used, 98);
    assert_eq!(events.len(), 2);
    assert_eq!(events[0].data, vec![7, 8]);
    assert_eq!(events[1].event.sector, 3);
    let (partial, used) = parse_trace_stream(&stream).unwrap();
    assert_eq!(partial.len(), 1);
    assert_eq!(used, 50);
    let mut bad = whole.clone();
    bad[50] = 0;
    assert!(matches!(parse_trace_stream(&bad), Err(BlkTraceError::MagicMismatch)));
}

#[test]
fn block_name_stops_at_first_nul() {
    let mut field = [0u8; 32];
    field[..4].copy_from_slice(b"nbd3");
    field[5] = b'x';
    assert_eq!(block_name(&field), Ok("nbd3".to_string()));
}

#[test]
fn block_name_without_nul() {
    assert_eq!(block_name(b"sda"), Err(BlockNameError::NoNul));
}

#[test]
fn block_name_not_utf8() {
    assert_eq!(block_name(&[0xff, 0xfe, 0]), Err(BlockNameError::NotUtf8));
}

#[test]
fn block_name_empty() {
    assert_eq!(block_name(&[0, b'a']), Ok(String::new()));
}
