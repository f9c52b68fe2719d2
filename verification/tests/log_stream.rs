use herdr_tilt::logs::{
    log_stream_args, reader_messages, BoundedLine, LogBuffer, LogMessage, LogSource, ReadOutcome,
    StreamEvent, TiltLogStream, DEFAULT_MAX_LOG_LINE_BYTES,
};

/// Reads all records of an input that comes in pieces of a size.
fn records(input: &[u8], piece: usize, max_bytes: usize) -> Vec<(String, bool)> {
    let mut result = Vec::new();
    let mut rest = input;
    loop {
        let mut line = BoundedLine::new(max_bytes);
        while !rest.is_empty() {
            let available = &rest[..piece.min(rest.len())];
            let progress = line.feed(available);
            rest = &rest[progress.consumed..];
            if progress.complete {
                break;
            }
        }
        match line.finish() {
            Some(record) => result.push(record),
            None => return result,
        }
    }
}

fn events(records: Vec<(String, bool)>, stderr: bool) -> Vec<StreamEvent> {
    let mut result = Vec::new();
    for (text, truncated) in records {
        let (messages, goes_on) = reader_messages(ReadOutcome::Record { text, truncated }, stderr);
        assert!(goes_on);
        result.extend(messages.into_iter().map(StreamEvent::Message));
    }
    let (messages, goes_on) = reader_messages(ReadOutcome::End, stderr);
    assert!(!goes_on);
    result.extend(messages.into_iter().map(StreamEvent::Message));
    result
}

#[test]
fn tilt_log_stream_uses_the_resource_and_port_and_delivers_output() {
    let mut stream = TiltLogStream::new(None);
    let mut logs = LogBuffer::with_limits(10, 80);
    let output = records(b"build started\nserver ready\n", 4, 80);

    let received = stream.poll_into(&mut logs, &events(output, false), 32);

    assert_eq!(received, 2);
    assert_eq!(logs.lines(), ["build started", "server ready"]);
    assert_eq!(
        log_stream_args("api", None, 41234),
        ["logs", "api", "--follow", "--port", "41234"]
    );
}

#[test]
fn tilt_log_stream_bounds_a_single_unterminated_record_while_reading() {
    let mut stream = TiltLogStream::new(None);
    let mut logs = LogBuffer::with_limits(10, 20_000);
    let mut input = vec![b'x'; 20_000];
    input.push(b'\n');
    let output = records(&input, 1024, DEFAULT_MAX_LOG_LINE_BYTES);

    stream.poll_into(&mut logs, &events(output, false), 32);

    assert_eq!(logs.lines()[0].len(), 8 * 1024);
    assert_eq!(logs.truncated_lines(), 1);
}

#[test]
fn log_sources_are_asked_for_and_marked_separately() {
    assert_eq!(
        log_stream_args("api", Some(LogSource::Build), 10350),
        ["logs", "api", "--follow", "--source", "build", "--port", "10350"]
    );
    assert_eq!(
        log_stream_args("api", Some(LogSource::Runtime), 10350),
        ["logs", "api", "--follow", "--source", "runtime", "--port", "10350"]
    );

    let mut logs = LogBuffer::with_limits(10, 80);
    let mut build = TiltLogStream::new(Some(LogSource::Build));
    let mut runtime = TiltLogStream::new(Some(LogSource::Runtime));
    build.poll_into(&mut logs, &events(records(b"compiling\n", 8, 80), false), 32);
    runtime.poll_into(&mut logs, &events(records(b"listening\n", 8, 80), false), 32);

    assert_eq!(logs.lines(), ["tilt │ compiling", "app │ listening"]);
}

#[test]
fn log_stream_ends_when_both_readers_have_closed() {
    let mut logs = LogBuffer::with_limits(10, 80);
    let mut stream = TiltLogStream::new(None);

    assert!(stream.is_running(false));
    assert!(!stream.is_running(true));
    stream.poll_into(&mut logs, &events(Vec::new(), false), 32);
    assert!(stream.is_running(false));
    stream.poll_into(&mut logs, &events(Vec::new(), true), 32);
    assert!(!stream.is_running(false));
}

#[test]
fn log_stream_ends_when_its_channel_is_gone() {
    let mut logs = LogBuffer::with_limits(10, 80);
    let mut stream = TiltLogStream::new(None);

    stream.poll_into(&mut logs, &vec![StreamEvent::Disconnected], 32);

    assert!(!stream.is_running(false));
}

#[test]
fn log_stream_remembers_the_last_error() {
    let mut logs = LogBuffer::with_limits(10, 80);
    let mut stream = TiltLogStream::new(None);
    assert_eq!(stream.last_error(), None);

    stream.poll_into(&mut logs, &events(records(b"first\nsecond\n", 64, 80), true), 32);
    assert_eq!(stream.last_error(), Some("second"));

    let (messages, goes_on) = reader_messages(
        ReadOutcome::Failed {
            error: "broken pipe".to_owned(),
        },
        false,
    );
    assert!(!goes_on);
    assert_eq!(messages.len(), 2);
    assert!(matches!(messages[1], LogMessage::ReaderClosed));
    let reported = messages.into_iter().map(StreamEvent::Message).collect();
    stream.poll_into(&mut logs, &reported, 32);
    assert_eq!(
        stream.last_error(),
        Some("log stream read error: broken pipe")
    );
}

#[test]
fn one_poll_takes_no_more_than_a_batch() {
    let mut logs = LogBuffer::with_limits(1000, 80);
    let mut stream = TiltLogStream::new(None);
    let many = events(records(&b"line\n".repeat(300), 64, 80), false);

    assert_eq!(stream.poll_into(&mut logs, &many, 1000), 256);
    assert_eq!(logs.len(), 256);
    assert_eq!(stream.poll_into(&mut logs, &many, 3), 3);
}

#[test]
fn records_do_not_depend_on_how_the_input_is_cut() {
    let input = b"one\r\ntwo two two\n\nlast \xff";
    let whole = records(input, 100, 8);

    for piece in 1..10 {
        assert_eq!(records(input, piece, 8), whole);
    }
    assert_eq!(
        whole,
        [
            ("one".to_owned(), false),
            ("two two ".to_owned(), true),
            (String::new(), false),
            ("last \u{fffd}".to_owned(), false),
        ]
    );
}
