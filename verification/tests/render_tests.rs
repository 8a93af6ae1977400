use tmatebot::render::render_frame;

fn newline_count(bytes: &[u8]) -> usize {
    bytes.iter().filter(|b| **b == b'\n').count()
}

#[test]
fn constant_render_height_for_every_occupancy() {
    // One line for the fence opening, then exactly 16 block lines,
    // whatever the buffer holds.
    let note: Vec<u8> = b"<t:99:R>".to_vec();
    for occupancy in 0..=16usize {
        let lines: Vec<Vec<u8>> = (0..occupancy)
            .map(|i| format!("row{i}").into_bytes())
            .collect();
        let out = render_frame(&lines, true, &note);
        assert_eq!(newline_count(&out), 17, "occupancy {occupancy}");
    }
}

#[test]
fn expired_frame_exact_bytes() {
    let lines: Vec<Vec<u8>> = Vec::new();
    let note: Vec<u8> = b"unused".to_vec();
    let out = render_frame(&lines, false, &note);
    let mut expected: Vec<u8> = b"Session expired.```\n".to_vec();
    for _ in 0..16 {
        expected.extend_from_slice(b" \n");
    }
    expected.extend_from_slice(b"```");
    assert_eq!(out, expected);
}

#[test]
fn live_frame_exact_bytes() {
    let lines: Vec<Vec<u8>> = vec![b"one".to_vec(), b"two".to_vec()];
    let note: Vec<u8> = b"<t:7:R>".to_vec();
    let out = render_frame(&lines, true, &note);
    let mut expected: Vec<u8> = b"Session expires <t:7:R>.```\none\ntwo\n".to_vec();
    for _ in 0..14 {
        expected.extend_from_slice(b" \n");
    }
    expected.extend_from_slice(b"```");
    assert_eq!(out, expected);
}

#[test]
fn full_window_not_dropped_by_padding() {
    // A buffer that exactly fills the window gets no filler and loses
    // no line.
    let lines: Vec<Vec<u8>> = (0..16).map(|i| format!("f{i}").into_bytes()).collect();
    let note: Vec<u8> = b"n".to_vec();
    let out = render_frame(&lines, true, &note);
    let text = String::from_utf8(out).unwrap();
    for i in 0..16 {
        assert!(text.contains(&format!("f{i}\n")), "missing line {i}");
    }
    assert!(!text.contains(" \n"));
}
