use kubecove::log_stream::{
    log_options, LogStreamAction, LogStreamEvent, LogStreamPhase, PodLogStream,
    PodLogStreamRequest, StreamMessage,
};
use kubecove::logs::{InvalidLogLine, LogLineReader, MAX_LOG_LINE_BYTES};

struct Source {
    data: Vec<u8>,
    at: usize,
    buffer: usize,
}

fn source(data: Vec<u8>, buffer: usize) -> Source {
    Source {
        data,
        at: 0,
        buffer,
    }
}

fn read_log_line(source: &mut Source) -> Result<Option<String>, InvalidLogLine> {
    let mut reader = LogLineReader::new();
    loop {
        let end = source.data.len().min(source.at + source.buffer);
        let progress = reader.accept(&source.data[source.at..end]);
        source.at += progress.consumed;
        if progress.done {
            return reader.into_line();
        }
    }
}

#[test]
fn oversized_line_is_marked_and_next_line_is_preserved() {
    let mut data = vec![b'x'; MAX_LOG_LINE_BYTES + 1];
    data.extend_from_slice(b"\nnext\n");
    let mut reader = source(data, 8192);
    let line = read_log_line(&mut reader).unwrap().unwrap();
    assert_eq!(
        line,
        format!("{} [truncated at 256 KiB]", "x".repeat(MAX_LOG_LINE_BYTES))
    );
    assert_eq!(
        read_log_line(&mut reader).unwrap().as_deref(),
        Some("next")
    );
    assert_eq!(read_log_line(&mut reader).unwrap(), None);
}

#[test]
fn exact_limit_and_crlf_do_not_truncate() {
    for ending in ["\n", "\r\n", ""] {
        let line = "x".repeat(MAX_LOG_LINE_BYTES);
        let mut reader = source(format!("{line}{ending}").into_bytes(), 8192);
        assert_eq!(read_log_line(&mut reader).unwrap(), Some(line));
        assert_eq!(read_log_line(&mut reader).unwrap(), None);
    }
}

#[test]
fn truncation_preserves_utf8_boundaries_and_empty_lines() {
    let prefix = "x".repeat(MAX_LOG_LINE_BYTES - 1);
    let mut reader = source(format!("{prefix}é\n\nlast").into_bytes(), 8192);
    assert_eq!(
        read_log_line(&mut reader).unwrap(),
        Some(format!("{prefix} [truncated at 256 KiB]"))
    );
    assert_eq!(read_log_line(&mut reader).unwrap().as_deref(), Some(""));
    assert_eq!(read_log_line(&mut reader).unwrap().as_deref(), Some("last"));
}

#[test]
fn buffers_of_any_size_read_the_same_lines() {
    let data = "one\r\n\ntwo é\rthree\n\r\nlast\r".as_bytes().to_vec();
    for buffer in 1..=data.len() {
        let mut reader = source(data.clone(), buffer);
        for line in ["one", "", "two é\rthree", "", "last\r"] {
            assert_eq!(
                read_log_line(&mut reader).unwrap().as_deref(),
                Some(line),
                "{buffer}"
            );
        }
        assert_eq!(read_log_line(&mut reader).unwrap(), None);
    }
}

#[test]
fn a_carriage_return_beyond_the_limit_is_truncated() {
    for (extra, marked) in [(0, false), (1, true), (5, true)] {
        let mut data = vec![b'x'; MAX_LOG_LINE_BYTES + extra];
        data.extend_from_slice(b"\r\n");
        let line = read_log_line(&mut source(data, 1000)).unwrap().unwrap();
        assert_eq!(line.ends_with(" [truncated at 256 KiB]"), marked);
    }
    let mut data = vec![b'x'; MAX_LOG_LINE_BYTES];
    data.push(b'\r');
    let line = read_log_line(&mut source(data, 1000)).unwrap().unwrap();
    assert!(line.ends_with(" [truncated at 256 KiB]"));
}

#[test]
fn invalid_lines_are_refused_with_their_bytes() {
    let mut reader = source(b"a\xffb\nnext\n".to_vec(), 2);
    assert_eq!(read_log_line(&mut reader).unwrap_err().bytes, b"a\xffb");
    assert_eq!(read_log_line(&mut reader).unwrap().as_deref(), Some("next"));
    let incomplete = read_log_line(&mut source(b"a\xc3\n".to_vec(), 64)).unwrap_err();
    assert_eq!(incomplete.bytes, b"a\xc3");
    let mut data = vec![b'x'; MAX_LOG_LINE_BYTES + 10];
    data[5] = 0xff;
    let error = read_log_line(&mut source(data, 8192)).unwrap_err();
    assert_eq!(error.bytes.len(), MAX_LOG_LINE_BYTES);
}

#[test]
fn reading_behind_the_end_of_a_line_takes_nothing() {
    let mut reader = LogLineReader::new();
    let progress = reader.accept(b"ab\ncd");
    assert_eq!((progress.consumed, progress.done), (3, true));
    let progress = reader.accept(b"cd");
    assert_eq!((progress.consumed, progress.done), (0, true));
    assert_eq!(reader.into_line().unwrap().as_deref(), Some("ab"));
}

fn request(tail_lines: Option<i64>) -> PodLogStreamRequest {
    PodLogStreamRequest {
        cluster_context: "kind-dev".into(),
        kubeconfig_env_var: None,
        namespace: "payments".into(),
        pod_name: "api-0".into(),
        container: Some("api".into()),
        tail_lines,
        since_seconds: Some(30),
    }
}

fn expect_error(action: LogStreamAction, text: &str) {
    match action {
        LogStreamAction::Send(StreamMessage::Error { stream_id, message }) => {
            assert_eq!(stream_id, "logs-1");
            assert_eq!(message, text);
        }
        other => panic!("{other:?}"),
    }
}

fn expect_stopped(action: LogStreamAction) {
    match action {
        LogStreamAction::Send(StreamMessage::Stopped { stream_id }) => {
            assert_eq!(stream_id, "logs-1");
        }
        other => panic!("{other:?}"),
    }
}

fn reading() -> PodLogStream {
    let (mut stream, action) = PodLogStream::start("logs-1".into(), request(None));
    assert!(matches!(action, LogStreamAction::Connect));
    match stream.advance(LogStreamEvent::Connected) {
        LogStreamAction::Send(StreamMessage::Status {
            stream_id,
            status,
            message,
        }) => {
            assert_eq!(stream_id, "logs-1");
            assert_eq!(status, "connected");
            assert_eq!(message, "Streaming logs");
        }
        other => panic!("{other:?}"),
    }
    match stream.advance(LogStreamEvent::Sent(true)) {
        LogStreamAction::Open(options) => {
            assert_eq!(options.container.as_deref(), Some("api"));
            assert!(options.follow && options.timestamps);
            assert_eq!(options.tail_lines, Some(200));
            assert_eq!(options.since_seconds, Some(30));
        }
        other => panic!("{other:?}"),
    }
    assert!(matches!(
        stream.advance(LogStreamEvent::Opened),
        LogStreamAction::Read
    ));
    stream
}

#[test]
fn a_stream_delivers_lines_and_stops() {
    let mut stream = reading();
    for text in ["first", "second"] {
        match stream.advance(LogStreamEvent::Line(Some(text.into()))) {
            LogStreamAction::Send(StreamMessage::LogLine {
                stream_id,
                line,
                source,
            }) => {
                assert_eq!(stream_id, "logs-1");
                assert_eq!(line, text);
                let source = source.unwrap();
                assert_eq!(source.pod_name, "api-0");
                assert_eq!(source.container.as_deref(), Some("api"));
            }
            other => panic!("{other:?}"),
        }
        assert!(matches!(
            stream.advance(LogStreamEvent::Sent(true)),
            LogStreamAction::Read
        ));
    }
    expect_stopped(stream.advance(LogStreamEvent::Line(None)));
    assert!(matches!(
        stream.advance(LogStreamEvent::Sent(true)),
        LogStreamAction::Finish
    ));
    assert_eq!(stream.phase, LogStreamPhase::Finished);
    assert!(matches!(
        stream.advance(LogStreamEvent::Line(Some("late".into()))),
        LogStreamAction::Ignore
    ));
}

#[test]
fn a_failed_client_sends_one_error_and_no_stop() {
    let (mut stream, _) = PodLogStream::start("logs-1".into(), request(None));
    let action = stream.advance(LogStreamEvent::ConnectFailed {
        message: "no context".into(),
    });
    expect_error(action, "no context");
    assert!(matches!(
        stream.advance(LogStreamEvent::Sent(false)),
        LogStreamAction::Finish
    ));
}

#[test]
fn failures_of_the_log_are_reported_before_the_stop() {
    let mut stream = reading();
    let action = stream.advance(LogStreamEvent::ReadFailed {
        message: "broken".into(),
    });
    expect_error(action, "broken");
    expect_stopped(stream.advance(LogStreamEvent::Sent(false)));

    let (mut stream, _) = PodLogStream::start("logs-1".into(), request(None));
    stream.advance(LogStreamEvent::Connected);
    stream.advance(LogStreamEvent::Sent(true));
    let action = stream.advance(LogStreamEvent::OpenFailed {
        message: "not found".into(),
    });
    expect_error(action, "not found");
    expect_stopped(stream.advance(LogStreamEvent::Sent(true)));
}

#[test]
fn a_closed_channel_ends_the_stream_silently() {
    let (mut stream, _) = PodLogStream::start("logs-1".into(), request(None));
    stream.advance(LogStreamEvent::Connected);
    assert!(matches!(
        stream.advance(LogStreamEvent::Sent(false)),
        LogStreamAction::Finish
    ));
    let mut stream = reading();
    stream.advance(LogStreamEvent::Line(Some("line".into())));
    assert!(matches!(
        stream.advance(LogStreamEvent::Sent(false)),
        LogStreamAction::Finish
    ));
}

#[test]
fn requested_tail_lines_are_kept() {
    assert_eq!(log_options(&request(Some(5))).tail_lines, Some(5));
    assert_eq!(log_options(&request(None)).tail_lines, Some(200));
}
