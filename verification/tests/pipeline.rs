use hexler::dump;
use hexler::error::HexlerError;
use hexler::error::IoErrorKind;
use hexler::error::IoFailure;
use hexler::line_writer::LineWriter;
use hexler::pipeline::Action;
use hexler::pipeline::Event;
use hexler::pipeline::Pipeline;
use hexler::pipeline::MAX_READ_BUFFER_SIZE;

fn whole_dump(title: &str, data: &[u8], bytes_per_line: usize) -> Vec<u8> {
    let mut line_writer = LineWriter::new_bytes(bytes_per_line).unwrap();
    let mut output = Vec::new();
    dump(title, data, &mut line_writer, &mut output).unwrap();
    output
}

fn sent(action: Action) -> Vec<u8> {
    match action {
        Action::Send(buffer) => buffer,
        _ => panic!("a buffer was to be sent"),
    }
}

#[test]
fn chunk_size_is_a_whole_number_of_lines() {
    for (bytes_per_line, expected) in [
        (8usize, 65536usize),
        (16, 65536),
        (24, 65520),
        (40, 65520),
        (65536, 65536),
        (65544, 65544),
    ] {
        let line_writer = LineWriter::new_bytes(bytes_per_line).unwrap();
        assert_eq!(Pipeline::chunk_size(&line_writer), expected);
    }
    assert_eq!(MAX_READ_BUFFER_SIZE, 64 * 1024);
}

#[test]
fn steps_of_a_dump_in_their_order() {
    let mut line_writer = LineWriter::new_bytes(8).unwrap();
    let mut sink = Vec::new();

    let (pipeline, action) = Pipeline::start("t", &mut line_writer);
    assert!(pipeline.expects(&Event::Sent));
    assert!(pipeline.expects(&Event::Disconnected));
    assert!(!pipeline.expects(&Event::Chunk(b"x")));
    sink.extend_from_slice(&sent(action));

    let (pipeline, action) = pipeline.step(&mut line_writer, Event::Sent);
    assert!(matches!(action, Action::Read));
    assert!(pipeline.expects(&Event::Chunk(b"x")));
    assert!(!pipeline.expects(&Event::Sent));

    let (pipeline, action) = pipeline.step(&mut line_writer, Event::Chunk(b"0123456789abcdef"));
    let buffer = sent(action);
    sink.extend_from_slice(&buffer);

    let (pipeline, action) = pipeline.step(&mut line_writer, Event::Sent);
    assert!(matches!(action, Action::Recycle));
    assert!(pipeline.expects(&Event::Recycled(Vec::new())));

    // The buffer comes back as it was sent: the producer empties it.
    let (pipeline, action) = pipeline.step(&mut line_writer, Event::Recycled(buffer));
    assert!(matches!(action, Action::Read));

    let (pipeline, action) = pipeline.step(&mut line_writer, Event::Chunk(b"xyz"));
    sink.extend_from_slice(&sent(action));
    let (pipeline, _) = pipeline.step(&mut line_writer, Event::Sent);
    let (pipeline, _) = pipeline.step(&mut line_writer, Event::Recycled(Vec::new()));

    let (pipeline, action) = pipeline.step(&mut line_writer, Event::Chunk(b""));
    sink.extend_from_slice(&sent(action));

    let (pipeline, action) = pipeline.step(&mut line_writer, Event::Sent);
    assert!(matches!(action, Action::Join));
    assert!(pipeline.expects(&Event::Joined(Ok(()))));

    let (pipeline, action) = pipeline.step(&mut line_writer, Event::Joined(Ok(())));
    assert!(matches!(action, Action::Finish(Ok(()))));
    assert!(!pipeline.expects(&Event::Sent));
    assert!(!pipeline.expects(&Event::Joined(Ok(()))));

    assert_eq!(sink, whole_dump("t", b"0123456789abcdefxyz", 8));
}

#[test]
fn a_writer_that_is_gone_ends_the_dump_with_a_broken_pipe() {
    let mut line_writer = LineWriter::new_bytes(8).unwrap();
    let (pipeline, _) = Pipeline::start("t", &mut line_writer);
    let (_, action) = pipeline.step(&mut line_writer, Event::Disconnected);
    match action {
        Action::Finish(Err(error)) => {
            assert!(error.is_broken_pipe());
            assert_eq!(error.to_string(), "IO error: Writer thread disconnected");
        }
        _ => panic!("the dump was to end"),
    }

    let (pipeline, _) = Pipeline::start("t", &mut line_writer);
    let (pipeline, _) = pipeline.step(&mut line_writer, Event::Sent);
    let (pipeline, _) = pipeline.step(&mut line_writer, Event::Chunk(b"abc"));
    let (pipeline, _) = pipeline.step(&mut line_writer, Event::Sent);
    let (pipeline, action) = pipeline.step(&mut line_writer, Event::Disconnected);
    assert!(matches!(
        action,
        Action::Finish(Err(HexlerError::Io(IoFailure {
            kind: IoErrorKind::BrokenPipe,
            ..
        })))
    ));
    assert!(!pipeline.expects(&Event::Disconnected));
}

#[test]
fn failures_of_source_and_sink_are_handed_on() {
    let mut line_writer = LineWriter::new_bytes(8).unwrap();
    let (pipeline, _) = Pipeline::start("t", &mut line_writer);
    let (pipeline, _) = pipeline.step(&mut line_writer, Event::Sent);
    let failure = IoFailure {
        kind: IoErrorKind::Other,
        message: String::from("unreadable"),
    };
    let (_, action) = pipeline.step(&mut line_writer, Event::ReadFailed(failure));
    match action {
        Action::Finish(Err(HexlerError::Io(failure))) => {
            assert_eq!(failure.kind, IoErrorKind::Other);
            assert_eq!(failure.message, "unreadable");
        }
        _ => panic!("the dump was to end with the failure of the source"),
    }

    let (pipeline, _) = Pipeline::start("t", &mut line_writer);
    let (pipeline, _) = pipeline.step(&mut line_writer, Event::Sent);
    let (pipeline, _) = pipeline.step(&mut line_writer, Event::Chunk(b""));
    let (pipeline, _) = pipeline.step(&mut line_writer, Event::Sent);
    let failure = IoFailure {
        kind: IoErrorKind::BrokenPipe,
        message: String::from("closed"),
    };
    let (_, action) = pipeline.step(&mut line_writer, Event::Joined(Err(failure)));
    match action {
        Action::Finish(Err(error)) => {
            assert!(error.is_broken_pipe());
            assert_eq!(error.to_string(), "IO error: closed");
        }
        _ => panic!("the dump was to end with the failure of the sink"),
    }
}

#[test]
fn dump_of_more_than_one_chunk() {
    let data: Vec<u8> = (0..(2 * 65520 + 5)).map(|i| (i % 251) as u8).collect();
    let output = whole_dump("big", &data, 24);
    let mut expected = Vec::new();
    let mut line_writer = LineWriter::new_bytes(24).unwrap();
    hexler::border_writer::BorderWriter::write_header(&mut expected, "big", 24).unwrap();
    line_writer.write_lines(&mut expected, &data);
    hexler::border_writer::BorderWriter::write_footer(&mut expected, "", 24).unwrap();
    assert_eq!(output, expected);
}

#[test]
fn start_sets_the_offset_back_to_zero() {
    let mut line_writer = LineWriter::new_bytes(8).unwrap();
    let mut scratch = Vec::new();
    line_writer.write_line(&mut scratch, b"abcdefgh", 8);

    let (pipeline, _) = Pipeline::start("t", &mut line_writer);
    let (pipeline, _) = pipeline.step(&mut line_writer, Event::Sent);
    let (_, action) = pipeline.step(&mut line_writer, Event::Chunk(b"A"));
    let lines = String::from_utf8(sent(action)).unwrap();
    assert!(lines.starts_with("\x1b[90m00000000\x1b[0m │"));
}
