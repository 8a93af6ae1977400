use tmatebot::aggregator::OutputAggregator;
use tmatebot::detector::{any_line_matches, line_matches};
use tmatebot::reader::{reader_step, ReadEvent};

#[test]
fn marker_suffix_matches() {
    let line = b"To connect: 0 client currently connected".to_vec();
    assert!(line_matches(&line));
    let exact = b"0 client currently connected".to_vec();
    assert!(line_matches(&exact));
}

#[test]
fn marker_elsewhere_does_not_match() {
    let not_suffix = b"0 client currently connected, more text".to_vec();
    assert!(!line_matches(&not_suffix));
    let other_count = b"1 client currently connected".to_vec();
    assert!(!line_matches(&other_count));
    let short = b"connected".to_vec();
    assert!(!line_matches(&short));
}

#[test]
fn any_line_scan() {
    let lines = vec![
        b"alpha".to_vec(),
        b"0 client currently connected".to_vec(),
        b"omega".to_vec(),
    ];
    assert!(any_line_matches(&lines));
    let silent = vec![b"alpha".to_vec(), b"omega".to_vec()];
    assert!(!any_line_matches(&silent));
}

#[test]
fn marker_split_across_reads_still_detected() {
    // The matching phrase arrives in two chunks; once reassembled into
    // one buffered logical line it must trigger the teardown request.
    let mut agg = OutputAggregator::new();
    let note: Vec<u8> = b"<t:1:R>".to_vec();
    let first = reader_step(
        &mut agg,
        &ReadEvent::Chunk(b"0 client cur".to_vec()),
        &note,
    );
    assert!(!first.request_teardown);
    let second = reader_step(
        &mut agg,
        &ReadEvent::Chunk(b"rently connected\n".to_vec()),
        &note,
    );
    assert!(second.request_teardown);
    assert!(!second.done);
}
