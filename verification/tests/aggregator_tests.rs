use tmatebot::aggregator::OutputAggregator;

fn lines_of(agg: &OutputAggregator) -> Vec<Vec<u8>> {
    agg.lines()
}

#[test]
fn single_chunk_single_line() {
    let mut agg = OutputAggregator::new();
    agg.feed(b"hello\n");
    assert_eq!(lines_of(&agg), vec![b"hello".to_vec()]);
    assert_eq!(agg.line_count(), 1);
}

#[test]
fn carriage_return_stripped_at_line_break() {
    let mut agg = OutputAggregator::new();
    agg.feed(b"hello\r\nworld\r\n");
    assert_eq!(lines_of(&agg), vec![b"hello".to_vec(), b"world".to_vec()]);
}

#[test]
fn carriage_return_stripped_across_chunks() {
    let mut agg = OutputAggregator::new();
    agg.feed(b"hello\r");
    agg.feed(b"\nrest\n");
    assert_eq!(lines_of(&agg), vec![b"hello".to_vec(), b"rest".to_vec()]);
}

#[test]
fn line_windowing_keeps_last_sixteen() {
    // 20 terminated lines arriving in several chunks: the buffer must
    // end as exactly the last 16, in order.
    let mut all: Vec<Vec<u8>> = Vec::new();
    for i in 0..20u8 {
        all.push(format!("line{i}").into_bytes());
    }
    let mut stream: Vec<u8> = Vec::new();
    for l in &all {
        stream.extend_from_slice(l);
        stream.push(b'\n');
    }
    let mut agg = OutputAggregator::new();
    // deliver in uneven chunks
    agg.feed(&stream[..7]);
    agg.feed(&stream[7..50]);
    agg.feed(&stream[50..]);
    let got = lines_of(&agg);
    assert_eq!(got.len(), 16);
    assert_eq!(got, all[4..].to_vec());
}

#[test]
fn partial_line_stitching_any_split_point() {
    let line = "h\u{e9}llo w\u{f8}rld\n".as_bytes().to_vec();
    let mut reference = OutputAggregator::new();
    reference.feed(&line);
    let expected = lines_of(&reference);
    for cut in 1..line.len() {
        let mut agg = OutputAggregator::new();
        agg.feed(&line[..cut]);
        agg.feed(&line[cut..]);
        assert_eq!(lines_of(&agg), expected, "split at byte {cut}");
    }
}

#[test]
fn unfinished_line_is_displayed_and_extended() {
    let mut agg = OutputAggregator::new();
    agg.feed(b"par");
    assert_eq!(lines_of(&agg), vec![b"par".to_vec()]);
    agg.feed(b"tial\n");
    assert_eq!(lines_of(&agg), vec![b"partial".to_vec()]);
}

#[test]
fn stream_close_appends_synthetic_line() {
    let mut agg = OutputAggregator::new();
    agg.feed(b"last\n");
    agg.note_stream_closed();
    assert_eq!(
        lines_of(&agg),
        vec![b"last".to_vec(), b"Session closed".to_vec()]
    );
}

#[test]
fn interior_carriage_returns_are_kept() {
    let mut agg = OutputAggregator::new();
    agg.feed(b"ab\rcd\n");
    assert_eq!(lines_of(&agg), vec![b"ab\rcd".to_vec()]);
}

#[test]
fn empty_lines_are_kept() {
    let mut agg = OutputAggregator::new();
    agg.feed(b"a\n\n\nb\n");
    assert_eq!(
        lines_of(&agg),
        vec![b"a".to_vec(), b"".to_vec(), b"".to_vec(), b"b".to_vec()]
    );
}

#[test]
fn window_eviction_on_full_buffer_with_open_line() {
    let mut agg = OutputAggregator::new();
    for i in 0..16u8 {
        agg.feed(format!("l{i}\n").as_bytes());
    }
    assert_eq!(agg.line_count(), 16);
    // opening a 17th line evicts the oldest
    agg.feed(b"open");
    let got = lines_of(&agg);
    assert_eq!(got.len(), 16);
    assert_eq!(got[0], b"l1".to_vec());
    assert_eq!(got[15], b"open".to_vec());
}
