use veila::common::line::{LineAccumulator, LineProgress, IPC_MAX_LINE_BYTES};

#[test]
fn reports_bytes_consumed_so_buffered_readers_keep_the_remainder() {
    let mut accumulator = LineAccumulator::new();

    let progress = accumulator
        .push_chunk(b"first\nsecond\n", "test")
        .expect("first line");

    // Six bytes: "first" plus the newline
    assert_eq!(
        progress,
        LineProgress::Complete {
            line: String::from("first"),
            consumed: 6,
        }
    );
}

#[test]
fn accumulates_across_chunk_boundaries() {
    let mut accumulator = LineAccumulator::new();

    assert_eq!(
        accumulator.push_chunk(b"par", "test").expect("pending"),
        LineProgress::Pending
    );
    let progress = accumulator.push_chunk(b"tial\n", "test").expect("complete");

    assert_eq!(
        progress,
        LineProgress::Complete {
            line: String::from("partial"),
            consumed: 5,
        }
    );
}

#[test]
fn rejects_lines_past_the_ceiling_before_allocating_them() {
    let mut accumulator = LineAccumulator::new();
    let oversized = vec![b'a'; IPC_MAX_LINE_BYTES + 1];

    let error = accumulator
        .push_chunk(&oversized, "test")
        .expect_err("oversized line should be rejected");

    assert!(error.to_string().contains("exceeds"));
}

#[test]
fn rejects_non_utf8_input() {
    let mut accumulator = LineAccumulator::new();

    let error = accumulator
        .push_chunk(&[0xff, 0xfe, b'\n'], "test")
        .expect_err("invalid utf-8 should be rejected");

    assert!(error.to_string().contains("not UTF-8"));
}

#[test]
fn distinguishes_a_clean_close_from_a_truncated_message() {
    let mut clean = LineAccumulator::new();
    assert_eq!(clean.finish("test").expect("clean close"), None);

    let mut truncated = LineAccumulator::new();
    truncated.push_chunk(b"partial", "test").expect("pending");
    let error = truncated
        .finish("test")
        .expect_err("truncated message should be rejected");

    assert!(error.to_string().contains("ended before newline"));
}

#[test]
fn a_line_at_the_ceiling_is_accepted_and_one_byte_more_is_not() {
    let mut accumulator = LineAccumulator::with_capacity(16);
    let mut line = vec![b'a'; IPC_MAX_LINE_BYTES];
    line.push(b'\n');
    match accumulator.push_chunk(&line, "test").expect("line at the ceiling") {
        LineProgress::Complete { line, consumed } => {
            assert_eq!(line.len(), IPC_MAX_LINE_BYTES);
            assert_eq!(consumed, IPC_MAX_LINE_BYTES + 1);
        }
        LineProgress::Pending => panic!("the line is finished"),
    }
    assert!(accumulator.is_empty());

    let mut split = LineAccumulator::new();
    split
        .push_chunk(&line[..IPC_MAX_LINE_BYTES], "auth request")
        .expect("pending");
    let error = split
        .push_chunk(b"b", "auth request")
        .expect_err("one byte past the ceiling");
    assert_eq!(error.to_string(), "auth request exceeds 65536 bytes");
    assert!(split.is_empty());
}

#[test]
fn chunk_boundaries_do_not_change_the_line() {
    let bytes = "grüße\nrest".as_bytes();
    for cut in 0..5 {
        let mut accumulator = LineAccumulator::new();
        accumulator.push_chunk(&bytes[..cut], "test").expect("pending");
        let progress = accumulator.push_chunk(&bytes[cut..], "test").expect("line");
        assert_eq!(
            progress,
            LineProgress::Complete {
                line: String::from("grüße"),
                consumed: 8 - cut,
            }
        );
    }
}

#[test]
fn stream_gives_its_lines_wherever_it_is_cut() {
    let stream = "first\n\nthird \u{e4}\nrest".as_bytes();
    for width in 1..=stream.len() {
        let mut accumulator = LineAccumulator::new();
        let mut lines = Vec::new();
        for cut in stream.chunks(width) {
            let mut chunk = cut;
            while !chunk.is_empty() {
                match accumulator.push_chunk(chunk, "stream").expect("well-formed") {
                    LineProgress::Complete { line, consumed } => {
                        assert_eq!(chunk[consumed - 1], b'\n');
                        assert!(!chunk[..consumed - 1].contains(&b'\n'));
                        lines.push(line);
                        chunk = &chunk[consumed..];
                    }
                    LineProgress::Pending => break,
                }
            }
        }
        assert_eq!(lines, vec!["first", "", "third \u{e4}"]);
        assert!(!accumulator.is_empty());
    }
}
