use chrono::DateTime;
use kubecove::error::{AppError, AppErrorKind, ErrorLink};
use kubecove::exec_io::{
    stdout_stream, DriveAction, DriveEvent, ExecDrive, ExecInput, InputAction, InputEvent,
    ReaderEnd,
};
use kubecove::exec_message::{
    exit_code_from_status, ExecStatus, ExecStatusCause, ExecStatusDetails, PodExecSessionMessage,
};
use kubecove::exec_output::{ExecOutput, OutputAction, OutputEvent};
use kubecove::exec_queue::{
    ExecCommand, PodExecTerminalSize, COMMAND_CAPACITY, INPUT_CHUNK_BYTES, PENDING_INPUT_BYTES,
};
use kubecove::exec_session::{
    attach_options, open_session, ExecSession, SessionCall, SessionEvent,
};
use kubecove::registry::{
    budgeted_request, session_summary, stdin_result, PodExecRegistry, StdinRequest, StdinWrite,
    ValidatedPodExecRequest,
};
use tokio::sync::{mpsc, oneshot};

fn request() -> ValidatedPodExecRequest {
    ValidatedPodExecRequest {
        cluster_context: "kind-dev".into(),
        kubeconfig_env_var: Some("KUBECONFIG".into()),
        kubeconfig_source_key: Some("default".into()),
        kubeconfig_source_label: None,
        namespace: "payments".into(),
        pod_name: "api-0".into(),
        container: Some("api".into()),
        command: vec!["sh".into(), "-c".into()],
        stdin: true,
        tty: false,
        terminal_size: PodExecTerminalSize { cols: 80, rows: 24 },
    }
}

fn open(registry: &mut PodExecRegistry<u32>) -> (String, mpsc::Receiver<ExecCommand>) {
    let opened = open_session(registry, &request());
    (opened.summary.id, opened.commands)
}

fn expect_refusal(written: Result<StdinWrite, AppError>, message: &str, kind: AppErrorKind) {
    match written {
        Err(error) => {
            assert_eq!(error.message, message);
            assert_eq!(error.kind, kind);
        }
        Ok(_) => panic!("accepted"),
    }
}

#[test]
fn ids_count_up_and_differ() {
    let mut registry: PodExecRegistry<u32> = PodExecRegistry::new();
    assert!(registry.has_next_id());
    for number in 1..=12 {
        assert_eq!(registry.session_id(), format!("pod-exec-{number}"));
    }
    assert!(registry.list().is_empty());
}

#[test]
fn an_opened_session_is_listed_and_announced() {
    let mut registry: PodExecRegistry<u32> = PodExecRegistry::new();
    let opened = open_session(&mut registry, &request());
    assert_eq!(opened.summary.id, "pod-exec-1");
    assert_eq!(opened.summary.status, "starting");
    assert_eq!(opened.summary.command, vec!["sh", "-c"]);
    assert_eq!(opened.summary.terminal_cols, 80);
    assert_eq!(opened.summary.terminal_rows, 24);
    assert_eq!(opened.summary.finished_at, None);
    assert!(DateTime::parse_from_rfc3339(&opened.summary.started_at).is_ok());
    match opened.started {
        PodExecSessionMessage::Started {
            session_id,
            summary,
        } => {
            assert_eq!(session_id, "pod-exec-1");
            assert_eq!(summary.pod_name, "api-0");
            assert_eq!(summary.started_at, opened.summary.started_at);
        }
        other => panic!("{other:?}"),
    }
    let listed = registry.list();
    assert_eq!(listed.len(), 1);
    assert_eq!(listed[0].id, "pod-exec-1");
}

#[test]
fn sessions_are_listed_in_the_order_of_their_ids() {
    let mut registry: PodExecRegistry<u32> = PodExecRegistry::new();
    let mut ends = Vec::new();
    for _ in 0..11 {
        ends.push(open(&mut registry));
    }
    let ids: Vec<String> = registry.list().into_iter().map(|one| one.id).collect();
    let mut sorted = ids.clone();
    sorted.sort();
    assert_eq!(ids, sorted);
    assert_eq!(ids[1], "pod-exec-10");
    assert_eq!(ids.len(), 11);
}

#[test]
fn marks_change_only_their_session() {
    let mut registry: PodExecRegistry<u32> = PodExecRegistry::new();
    let (first, _first_commands) = open(&mut registry);
    let (second, _second_commands) = open(&mut registry);
    registry.mark_running(&first);
    registry.mark_error(&second, "broken".into());
    registry.mark_terminal_size(&first, PodExecTerminalSize { cols: 10, rows: 5 });
    registry.mark_status("pod-exec-9", "running", None);
    let listed = registry.list();
    assert_eq!(listed.len(), 2);
    assert_eq!(listed[0].status, "running");
    assert_eq!((listed[0].terminal_cols, listed[0].terminal_rows), (10, 5));
    assert_eq!(listed[1].status, "error");
    assert_eq!(listed[1].last_error.as_deref(), Some("broken"));
    assert_eq!(listed[1].terminal_cols, 80);
    registry.mark_exited(&second, Some(3));
    let listed = registry.list();
    assert_eq!(listed[1].status, "exited");
    assert_eq!(listed[1].exit_code, Some(3));
    assert_eq!(listed[1].last_error.as_deref(), Some("broken"));
    assert!(DateTime::parse_from_rfc3339(listed[1].finished_at.as_ref().unwrap()).is_ok());
    registry.mark_exited_at(&second, None, "then".into());
    assert_eq!(registry.list()[1].finished_at.as_deref(), Some("then"));
    assert_eq!(registry.list()[1].exit_code, None);
}

#[test]
fn handles_come_back_to_be_aborted() {
    let mut registry: PodExecRegistry<u32> = PodExecRegistry::new();
    let (id, _commands) = open(&mut registry);
    assert_eq!(registry.set_handle(&id, 7), None);
    assert_eq!(registry.set_handle("pod-exec-9", 8), Some(8));
    assert_eq!(registry.stop(&id), (true, Some(7)));
    assert_eq!(registry.stop(&id), (false, None));
    registry.mark_running(&id);
    assert!(registry.list().is_empty());
    let (id, _commands) = open(&mut registry);
    assert_eq!(id, "pod-exec-2");
    assert_eq!(registry.stop(&id), (true, None));
}

#[test]
fn sessions_out_of_scope_are_stopped() {
    let mut registry: PodExecRegistry<u32> = PodExecRegistry::new();
    let mut ends = Vec::new();
    for (context, key) in [
        ("a", Some("default")),
        ("b", Some("default")),
        ("a", Some("other")),
        ("a", None),
        ("c", Some("default")),
    ] {
        let mut given = request();
        given.cluster_context = context.into();
        given.kubeconfig_source_key = key.map(str::to_string);
        ends.push(open_session(&mut registry, &given));
    }
    registry.set_handle("pod-exec-2", 2);
    registry.set_handle("pod-exec-4", 4);
    registry.set_handle("pod-exec-1", 1);
    let allowed = vec!["a".to_string(), "c".to_string()];
    let (stopped, handles) = registry.stop_outside_scope(&allowed, "default");
    assert_eq!(stopped, vec!["pod-exec-2", "pod-exec-3", "pod-exec-4"]);
    assert_eq!(handles, vec![2, 4]);
    let left: Vec<String> = registry.list().into_iter().map(|one| one.id).collect();
    assert_eq!(left, vec!["pod-exec-1", "pod-exec-5"]);
    let (stopped, handles) = registry.stop_outside_scope(&Vec::new(), "default");
    assert_eq!(stopped.len(), 2);
    assert_eq!(handles, vec![1]);
}

#[test]
fn an_inserted_session_replaces_one_of_the_same_id() {
    let mut registry: PodExecRegistry<u32> = PodExecRegistry::new();
    let (id, _commands) = open(&mut registry);
    registry.set_handle(&id, 1);
    registry.mark_running(&id);
    let (commands, _received) = mpsc::channel(1);
    let inserted = registry.insert(session_summary(id.clone(), &request()), commands);
    assert_eq!(inserted.status, "starting");
    assert_eq!(registry.list().len(), 1);
    assert_eq!(registry.list()[0].status, "starting");
    assert_eq!(registry.stop(&id), (true, None));
}

#[test]
fn written_input_arrives_with_its_bytes_and_is_answered() {
    let mut registry: PodExecRegistry<u32> = PodExecRegistry::new();
    let (id, mut commands) = open(&mut registry);
    let mut response = match registry.write_stdin(&id, "ls é\n".into()) {
        Ok(StdinWrite::Waiting { response, .. }) => response,
        _ => panic!("not queued"),
    };
    assert!(response.try_recv().is_err());
    match commands.try_recv().unwrap() {
        ExecCommand::Stdin {
            data,
            acknowledged,
            permit,
        } => {
            assert_eq!(data, "ls é\n".as_bytes());
            assert_eq!(permit.bytes(), data.len());
            acknowledged.send(Ok(())).unwrap();
        }
        ExecCommand::Resize(_) => panic!("no input"),
    }
    assert!(stdin_result(response.try_recv().ok()).is_ok());
}

#[test]
fn refused_input_says_why() {
    let mut registry: PodExecRegistry<u32> = PodExecRegistry::new();
    let (id, _commands) = open(&mut registry);
    expect_refusal(
        registry.write_stdin(&id, "x".repeat(INPUT_CHUNK_BYTES + 1)),
        "exec input chunks must not exceed 16 KiB",
        AppErrorKind::Validation,
    );
    expect_refusal(
        registry.write_stdin("none", "x".repeat(INPUT_CHUNK_BYTES + 1)),
        "exec input chunks must not exceed 16 KiB",
        AppErrorKind::Validation,
    );
    expect_refusal(
        registry.write_stdin("none", "x".into()),
        "exec session was not found",
        AppErrorKind::Session,
    );
    let mut silent = request();
    silent.stdin = false;
    let silent = open_session(&mut registry, &silent);
    expect_refusal(
        registry.write_stdin(&silent.summary.id, String::new()),
        "exec session stdin is disabled",
        AppErrorKind::Session,
    );
    assert!(matches!(
        registry.write_stdin(&id, String::new()),
        Ok(StdinWrite::Done)
    ));
}

#[test]
fn waiting_input_is_limited_and_room_comes_back() {
    let mut registry: PodExecRegistry<u32> = PodExecRegistry::new();
    let (commands, mut received) = mpsc::channel(64);
    let id = registry.session_id();
    registry.insert(session_summary(id.clone(), &request()), commands);
    let chunk = "x".repeat(INPUT_CHUNK_BYTES);
    for _ in 0..PENDING_INPUT_BYTES / INPUT_CHUNK_BYTES {
        assert!(matches!(
            registry.write_stdin(&id, chunk.clone()),
            Ok(StdinWrite::Waiting { .. })
        ));
    }
    match registry.write_stdin(&id, "x".into()) {
        Err(error) => {
            assert_eq!(
                error.message,
                "exec pending input exceeds 256 KiB; input was not accepted"
            );
            assert_eq!(error.kind, AppErrorKind::Session);
            assert_eq!(error.source().unwrap().len(), 1);
        }
        Ok(_) => panic!("accepted"),
    }
    assert!(matches!(
        registry.write_stdin(&id, String::new()),
        Ok(StdinWrite::Done)
    ));
    drop(received.try_recv().unwrap());
    assert!(matches!(
        registry.write_stdin(&id, chunk),
        Ok(StdinWrite::Waiting { .. })
    ));
}

#[test]
fn input_is_queued_exactly_with_what_its_budget_gave() {
    let (acknowledged, response) = oneshot::channel();
    match budgeted_request(None, "ls", acknowledged, response) {
        Err(error) => assert_eq!(
            error.message,
            "exec pending input exceeds 256 KiB; input was not accepted"
        ),
        Ok(_) => panic!("accepted"),
    }
    let mut registry: PodExecRegistry<u32> = PodExecRegistry::new();
    let (id, _commands) = open(&mut registry);
    let permit = match registry.stdin_request(&id, "ls") {
        Ok(StdinRequest::Queue {
            command: ExecCommand::Stdin { permit, .. },
            ..
        }) => permit,
        _ => panic!("not taken"),
    };
    assert_eq!(permit.bytes(), 2);
    let (acknowledged, response) = oneshot::channel();
    match budgeted_request(Some(permit), "é", acknowledged, response) {
        Ok(StdinRequest::Queue {
            command:
                ExecCommand::Stdin {
                    data,
                    acknowledged,
                    permit,
                },
            mut response,
        }) => {
            assert_eq!(data, "é".as_bytes());
            acknowledged.send(Ok(())).unwrap();
            assert!(stdin_result(response.try_recv().ok()).is_ok());
            let (acknowledged, response) = oneshot::channel();
            assert!(matches!(
                budgeted_request(Some(permit), "", acknowledged, response),
                Ok(StdinRequest::Empty)
            ));
        }
        _ => panic!("not queued"),
    }
}

#[test]
fn commands_reach_the_session_they_are_for() {
    let mut registry: PodExecRegistry<u32> = PodExecRegistry::new();
    let (first, mut first_commands) = open(&mut registry);
    let (second, mut second_commands) = open(&mut registry);
    let size = PodExecTerminalSize { cols: 3, rows: 4 };
    assert!(registry.send_command(&second, ExecCommand::Resize(size)).is_ok());
    assert!(first_commands.try_recv().is_err());
    assert!(
        matches!(second_commands.try_recv(), Ok(ExecCommand::Resize(given)) if given == size)
    );
    let chunk = "x".repeat(INPUT_CHUNK_BYTES);
    for _ in 0..COMMAND_CAPACITY {
        assert!(registry.write_stdin(&first, chunk.clone()).is_ok());
    }
    expect_refusal(
        registry.write_stdin(&first, "x".into()),
        "exec pending input exceeds 256 KiB; input was not accepted",
        AppErrorKind::Session,
    );
    assert!(registry.write_stdin(&second, chunk).is_ok());
}

#[test]
fn a_full_or_closed_queue_refuses_commands() {
    let mut registry: PodExecRegistry<u32> = PodExecRegistry::new();
    let (id, received) = open(&mut registry);
    for _ in 0..COMMAND_CAPACITY {
        let size = PodExecTerminalSize { cols: 1, rows: 1 };
        assert!(registry.send_command(&id, ExecCommand::Resize(size)).is_ok());
    }
    expect_refusal(
        registry.write_stdin(&id, "x".into()),
        "exec input queue is full; input was not accepted",
        AppErrorKind::Session,
    );
    drop(received);
    expect_refusal(
        registry.write_stdin(&id, "x".into()),
        "exec session is no longer accepting input",
        AppErrorKind::Session,
    );
    let size = PodExecTerminalSize { cols: 1, rows: 1 };
    let error = registry
        .send_command("none", ExecCommand::Resize(size))
        .err()
        .unwrap();
    assert_eq!(error.message, "exec session was not found");
}

#[test]
fn unanswered_input_is_a_failure() {
    let error = stdin_result(None).unwrap_err();
    assert_eq!(error.message, "exec session ended before input was written");
    assert_eq!(error.kind, AppErrorKind::Session);
    assert_eq!(error.source().unwrap().len(), 1);
    let error = stdin_result(Some(Err(AppError::new("x", AppErrorKind::Io)))).unwrap_err();
    assert_eq!(error.kind, AppErrorKind::Io);
}

fn cause(reason: Option<&str>, message: Option<&str>) -> ExecStatusCause {
    ExecStatusCause {
        reason: reason.map(str::to_string),
        message: message.map(str::to_string),
    }
}

fn status(causes: Option<Vec<ExecStatusCause>>) -> ExecStatus {
    ExecStatus {
        reason: Some("NonZeroExitCode".into()),
        message: Some("command terminated".into()),
        details: Some(ExecStatusDetails { causes }),
    }
}

#[test]
fn exit_codes_come_from_the_first_cause_that_tells_one() {
    assert_eq!(
        exit_code_from_status(&status(Some(vec![
            cause(Some("Other"), Some("9")),
            cause(Some("ExitCode"), None),
            cause(Some("ExitCode"), Some("many")),
            cause(None, Some("8")),
            cause(Some("ExitCode"), Some("-3")),
            cause(Some("ExitCode"), Some("4")),
        ]))),
        Some(-3)
    );
    assert_eq!(exit_code_from_status(&status(Some(vec![]))), None);
    assert_eq!(exit_code_from_status(&status(None)), None);
    let bare = ExecStatus {
        reason: None,
        message: None,
        details: None,
    };
    assert_eq!(exit_code_from_status(&bare), None);
}

fn output_text(action: OutputAction) -> String {
    match action {
        OutputAction::Send(PodExecSessionMessage::Output {
            session_id,
            stream,
            data,
        }) => {
            assert_eq!(session_id, "pod-exec-1");
            assert_eq!(stream, "stdout");
            data
        }
        other => panic!("{other:?}"),
    }
}

#[test]
fn output_is_sent_in_pieces_and_flushed_at_the_end() {
    let (mut output, action) = ExecOutput::start("pod-exec-1".into(), "stdout");
    assert!(matches!(action, OutputAction::Read));
    let action = output.advance(OutputEvent::Read(b"a\xffb\xc3".to_vec()));
    assert_eq!(output_text(action), "a\u{FFFD}");
    let action = output.advance(OutputEvent::Sent(true));
    assert_eq!(output_text(action), "b");
    assert!(matches!(
        output.advance(OutputEvent::Sent(true)),
        OutputAction::Read
    ));
    let action = output.advance(OutputEvent::Read(b"\xa9\xe2\x82".to_vec()));
    assert_eq!(output_text(action), "é");
    assert!(matches!(
        output.advance(OutputEvent::Sent(true)),
        OutputAction::Read
    ));
    let action = output.advance(OutputEvent::Read(Vec::new()));
    assert_eq!(output_text(action), "\u{FFFD}");
    assert!(matches!(
        output.advance(OutputEvent::Sent(false)),
        OutputAction::Finish(Ok(()))
    ));
    assert!(matches!(
        output.advance(OutputEvent::Sent(true)),
        OutputAction::Ignore
    ));
}

#[test]
fn any_chunks_of_output_send_the_same_text() {
    let bytes = "h\u{e9}llo \u{1f600}\n".as_bytes();
    for size in 1..=bytes.len() {
        let (mut output, _) = ExecOutput::start("pod-exec-1".into(), "stdout");
        let mut text = String::new();
        for chunk in bytes.chunks(size) {
            let mut action = output.advance(OutputEvent::Read(chunk.to_vec()));
            while let OutputAction::Send(_) = action {
                text.push_str(&output_text(action));
                action = output.advance(OutputEvent::Sent(true));
            }
        }
        assert!(matches!(
            output.advance(OutputEvent::Read(Vec::new())),
            OutputAction::Finish(Ok(()))
        ));
        assert_eq!(text.as_bytes(), bytes);
    }
}

#[test]
fn failures_of_output_are_told() {
    let (mut output, _) = ExecOutput::start("pod-exec-1".into(), "stdout");
    output.advance(OutputEvent::Read(b"text".to_vec()));
    match output.advance(OutputEvent::Sent(false)) {
        OutputAction::Finish(Err(error)) => {
            assert_eq!(error.message, "exec output channel closed");
            assert_eq!(error.kind, AppErrorKind::Session);
        }
        other => panic!("{other:?}"),
    }
    let (mut output, _) = ExecOutput::start("pod-exec-1".into(), "stdout");
    match output.advance(OutputEvent::ReadFailed(vec![ErrorLink::Other])) {
        OutputAction::Finish(Err(error)) => {
            assert_eq!(error.message, "Could not read exec output");
            assert_eq!(error.kind, AppErrorKind::Io);
            assert_eq!(error.source().unwrap().len(), 1);
        }
        other => panic!("{other:?}"),
    }
}

fn stdin_of(registry: &PodExecRegistry<u32>, id: &str, text: &str) -> StdinWrite {
    match registry.write_stdin(id, text.into()) {
        Ok(write) => write,
        Err(error) => panic!("{error:?}"),
    }
}

fn fail_text(action: InputAction) -> String {
    match action {
        InputAction::Fail(error) => error.message,
        _ => panic!("no failure"),
    }
}

#[test]
fn input_is_written_and_answered() {
    let mut registry: PodExecRegistry<u32> = PodExecRegistry::new();
    let (id, mut commands) = open(&mut registry);
    let size = PodExecTerminalSize { cols: 80, rows: 24 };
    let (input, action) = ExecInput::start(id.clone(), true, true, size);
    assert!(matches!(action, InputAction::Resize(given) if given == size));
    let (input, action) = input.advance(&mut registry, InputEvent::Resized(Ok(())));
    assert!(matches!(action, InputAction::Receive));
    assert_eq!(registry.list()[0].terminal_cols, 80);

    let write = stdin_of(&registry, &id, "ls\n");
    let command = commands.try_recv().unwrap();
    let (input, action) = input.advance(&mut registry, InputEvent::Received(Some(command)));
    assert!(matches!(action, InputAction::Write(data) if data == b"ls\n"));
    let (input, action) = input.advance(&mut registry, InputEvent::Written(Ok(())));
    let sent = match action {
        InputAction::Answer(answer) => answer.deliver(),
        _ => panic!("no answer"),
    };
    assert!(sent.is_ok());
    match write {
        StdinWrite::Waiting { mut response, .. } => {
            assert!(stdin_result(response.try_recv().ok()).is_ok());
        }
        StdinWrite::Done => panic!("nothing written"),
    }
    let (input, action) = input.advance(&mut registry, InputEvent::Answered(sent));
    assert!(matches!(action, InputAction::Receive));

    let wide = PodExecTerminalSize { cols: 200, rows: 50 };
    let (input, action) = input.advance(
        &mut registry,
        InputEvent::Received(Some(ExecCommand::Resize(wide))),
    );
    assert!(matches!(action, InputAction::Resize(given) if given == wide));
    assert_eq!(registry.list()[0].terminal_cols, 80);
    let (input, action) = input.advance(&mut registry, InputEvent::Resized(Ok(())));
    assert!(matches!(action, InputAction::Receive));
    assert_eq!(registry.list()[0].terminal_cols, 200);
    let (input, action) = input.advance(&mut registry, InputEvent::Received(None));
    assert_eq!(
        fail_text(action),
        "exec input channel closed before completion"
    );
    let (_, action) = input.advance(&mut registry, InputEvent::Answered(Err(Ok(()))));
    assert!(matches!(action, InputAction::Ignore));
}

#[test]
fn failed_input_is_answered_before_the_session_fails() {
    let mut registry: PodExecRegistry<u32> = PodExecRegistry::new();
    let (id, mut commands) = open(&mut registry);
    let size = PodExecTerminalSize { cols: 80, rows: 24 };
    for (stdin, message, kind) in [
        (true, "Could not write exec input", AppErrorKind::Io),
        (
            false,
            "exec session stdin is unavailable",
            AppErrorKind::Session,
        ),
    ] {
        let write = stdin_of(&registry, &id, "ls\n");
        let (input, action) = ExecInput::start(id.clone(), stdin, false, size);
        assert!(matches!(action, InputAction::Receive));
        let command = commands.try_recv().unwrap();
        let (mut input, mut action) =
            input.advance(&mut registry, InputEvent::Received(Some(command)));
        if stdin {
            assert!(matches!(action, InputAction::Write(_)));
            (input, action) = input.advance(
                &mut registry,
                InputEvent::Written(Err(vec![ErrorLink::Other])),
            );
        }
        let sent = match action {
            InputAction::Answer(answer) => answer.deliver(),
            _ => panic!("no answer"),
        };
        assert!(sent.is_ok());
        match write {
            StdinWrite::Waiting { mut response, .. } => {
                let error = stdin_result(response.try_recv().ok()).unwrap_err();
                assert_eq!(error.message, message);
                assert_eq!(error.kind, kind);
            }
            StdinWrite::Done => panic!("nothing written"),
        }
        let (_, action) = input.advance(&mut registry, InputEvent::Answered(sent));
        assert_eq!(fail_text(action), message);
    }
}

#[test]
fn an_answer_that_nobody_waits_for_comes_back() {
    let mut registry: PodExecRegistry<u32> = PodExecRegistry::new();
    let (id, mut commands) = open(&mut registry);
    drop(stdin_of(&registry, &id, "ls\n"));
    let size = PodExecTerminalSize { cols: 80, rows: 24 };
    let (input, _) = ExecInput::start(id, true, false, size);
    let command = commands.try_recv().unwrap();
    let (input, _) = input.advance(&mut registry, InputEvent::Received(Some(command)));
    let (input, action) = input.advance(&mut registry, InputEvent::Written(Ok(())));
    let sent = match action {
        InputAction::Answer(answer) => answer.deliver(),
        _ => panic!("no answer"),
    };
    assert!(matches!(sent, Err(Ok(()))));
    let (_, action) = input.advance(&mut registry, InputEvent::Answered(sent));
    assert!(matches!(action, InputAction::Receive));
}

#[test]
fn terminals_that_cannot_be_resized_fail_the_session() {
    let mut registry: PodExecRegistry<u32> = PodExecRegistry::new();
    let (id, _commands) = open(&mut registry);
    let size = PodExecTerminalSize { cols: 80, rows: 24 };
    let (input, _) = ExecInput::start(id.clone(), true, true, size);
    let (_, action) = input.advance(
        &mut registry,
        InputEvent::Resized(Err(vec![ErrorLink::Other])),
    );
    assert_eq!(fail_text(action), "Could not resize exec terminal");
    let (input, _) = ExecInput::start(id.clone(), true, true, size);
    let (input, _) = input.advance(&mut registry, InputEvent::Resized(Ok(())));
    let wide = PodExecTerminalSize { cols: 200, rows: 50 };
    let (input, _) = input.advance(
        &mut registry,
        InputEvent::Received(Some(ExecCommand::Resize(wide))),
    );
    let (_, action) = input.advance(
        &mut registry,
        InputEvent::Resized(Err(vec![ErrorLink::Other])),
    );
    assert_eq!(fail_text(action), "Could not resize exec terminal");
    assert_eq!(registry.list()[0].terminal_cols, 80);
    let (input, _) = ExecInput::start(id, true, false, size);
    let (_, action) = input.advance(
        &mut registry,
        InputEvent::Received(Some(ExecCommand::Resize(wide))),
    );
    assert!(matches!(action, InputAction::Receive));
}

#[test]
fn all_output_is_read_before_a_session_ends() {
    let (drive, action) = ExecDrive::start(2, true);
    assert!(matches!(action, DriveAction::Wait));
    let (drive, action) = drive.advance(DriveEvent::Status(Some(status(None))));
    assert!(matches!(action, DriveAction::Join));
    let (drive, action) = drive.advance(DriveEvent::Reader(ReaderEnd::Done));
    assert!(matches!(action, DriveAction::Join));
    let (drive, action) = drive.advance(DriveEvent::Reader(ReaderEnd::Done));
    match action {
        DriveAction::Finish(Ok(status)) => {
            assert_eq!(status.message.as_deref(), Some("command terminated"));
        }
        other => panic!("{other:?}"),
    }
    let (_, action) = drive.advance(DriveEvent::Reader(ReaderEnd::Done));
    assert!(matches!(action, DriveAction::Ignore));

    let (drive, _) = ExecDrive::start(1, true);
    let (drive, action) = drive.advance(DriveEvent::Reader(ReaderEnd::Done));
    assert!(matches!(action, DriveAction::Wait));
    let (drive, action) = drive.advance(DriveEvent::Reader(ReaderEnd::Done));
    assert!(matches!(action, DriveAction::Ignore));
    let (_, action) = drive.advance(DriveEvent::Status(Some(status(None))));
    assert!(matches!(action, DriveAction::Finish(Ok(_))));
}

fn drive_failure(action: DriveAction) -> (String, AppErrorKind) {
    match action {
        DriveAction::Finish(Err(error)) => (error.message, error.kind),
        other => panic!("{other:?}"),
    }
}

#[test]
fn failures_end_a_session() {
    let (_, action) = ExecDrive::start(2, false);
    assert_eq!(
        drive_failure(action),
        (
            "exec status receiver is unavailable".to_string(),
            AppErrorKind::Session
        )
    );
    let (drive, _) = ExecDrive::start(0, true);
    let (_, action) = drive.advance(DriveEvent::Status(None));
    assert_eq!(
        drive_failure(action),
        (
            "exec session closed without an exit status".to_string(),
            AppErrorKind::Session
        )
    );
    let (drive, _) = ExecDrive::start(0, true);
    let (_, action) = drive.advance(DriveEvent::InputFailed(AppError::new(
        "input",
        AppErrorKind::Io,
    )));
    assert_eq!(drive_failure(action), ("input".to_string(), AppErrorKind::Io));
    for draining in [false, true] {
        for (end, message, kind) in [
            (
                ReaderEnd::Failed(AppError::new("closed", AppErrorKind::Session)),
                "closed",
                AppErrorKind::Session,
            ),
            (
                ReaderEnd::Crashed(vec![ErrorLink::Other]),
                "exec output task failed",
                AppErrorKind::Internal,
            ),
        ] {
            let (mut drive, _) = ExecDrive::start(1, true);
            if draining {
                (drive, _) = drive.advance(DriveEvent::Status(Some(status(None))));
            }
            let (_, action) = drive.advance(DriveEvent::Reader(end));
            assert_eq!(drive_failure(action), (message.to_string(), kind));
        }
    }
}

#[test]
fn streams_are_named_after_the_terminal() {
    assert_eq!(stdout_stream(true), "terminal");
    assert_eq!(stdout_stream(false), "stdout");
}

#[test]
fn a_terminal_has_no_stream_for_errors() {
    let options = attach_options(&request());
    assert!(options.stdin && options.stdout && options.stderr && !options.tty);
    assert_eq!(options.container.as_deref(), Some("api"));
    assert_eq!(options.max_stdin_buf_size, 16 * 1024);
    assert_eq!(options.max_stdout_buf_size, 64 * 1024);
    assert_eq!(options.max_stderr_buf_size, 64 * 1024);
    let mut terminal = request();
    terminal.tty = true;
    terminal.container = None;
    let options = attach_options(&terminal);
    assert!(options.tty && !options.stderr && options.stdout);
    assert_eq!(options.container, None);
}

fn running(registry: &mut PodExecRegistry<u32>, id: &str) -> ExecSession {
    let (mut session, step) = ExecSession::start(id.to_string());
    assert_eq!(step.call, SessionCall::Connect);
    match &step.messages[..] {
        [PodExecSessionMessage::Status {
            session_id,
            status,
            message,
        }] => {
            assert_eq!(session_id, id);
            assert_eq!(status, "connecting");
            assert_eq!(message, "Opening Kubernetes exec session");
        }
        other => panic!("{other:?}"),
    }
    let step = session.advance(registry, SessionEvent::Connected);
    assert_eq!(step.call, SessionCall::Attach);
    assert!(step.messages.is_empty());
    let step = session.advance(registry, SessionEvent::Attached);
    assert_eq!(step.call, SessionCall::Drive);
    match &step.messages[..] {
        [PodExecSessionMessage::Status {
            status, message, ..
        }] => {
            assert_eq!(status, "running");
            assert_eq!(message, "Exec session is running");
        }
        other => panic!("{other:?}"),
    }
    session
}

#[test]
fn a_session_runs_and_exits() {
    let mut registry: PodExecRegistry<u32> = PodExecRegistry::new();
    let (id, _commands) = open(&mut registry);
    let mut session = running(&mut registry, &id);
    assert_eq!(registry.list()[0].status, "running");
    let ended = status(Some(vec![cause(Some("ExitCode"), Some("2"))]));
    let step = session.advance(&mut registry, SessionEvent::Ended(Ok(ended)));
    assert_eq!(step.call, SessionCall::Finish);
    match &step.messages[..] {
        [PodExecSessionMessage::Exited {
            session_id,
            exit_code,
            reason,
            message,
        }, PodExecSessionMessage::Stopped {
            session_id: stopped,
        }] => {
            assert_eq!(session_id, &id);
            assert_eq!(stopped, &id);
            assert_eq!(*exit_code, Some(2));
            assert_eq!(reason.as_deref(), Some("NonZeroExitCode"));
            assert_eq!(message.as_deref(), Some("command terminated"));
        }
        other => panic!("{other:?}"),
    }
    let listed = registry.list();
    assert_eq!(listed[0].status, "exited");
    assert_eq!(listed[0].exit_code, Some(2));
    assert!(listed[0].finished_at.is_some());
    let step = session.advance(&mut registry, SessionEvent::Connected);
    assert_eq!(step.call, SessionCall::Ignore);
}

#[test]
fn a_session_fails_while_it_runs() {
    let mut registry: PodExecRegistry<u32> = PodExecRegistry::new();
    let (id, _commands) = open(&mut registry);
    let mut session = running(&mut registry, &id);
    let error = AppError::new("broken pipe", AppErrorKind::Io);
    let step = session.advance(&mut registry, SessionEvent::Ended(Err(error)));
    match &step.messages[..] {
        [PodExecSessionMessage::Error { message, .. }, PodExecSessionMessage::Stopped { .. }] => {
            assert_eq!(message, "broken pipe");
        }
        other => panic!("{other:?}"),
    }
    assert_eq!(registry.list()[0].last_error.as_deref(), Some("broken pipe"));
}

#[test]
fn a_session_that_cannot_be_opened_is_not_stopped() {
    for attached in [false, true] {
        let mut registry: PodExecRegistry<u32> = PodExecRegistry::new();
        let (id, _commands) = open(&mut registry);
        let (mut session, _) = ExecSession::start(id.clone());
        let event = if attached {
            session.advance(&mut registry, SessionEvent::Connected);
            SessionEvent::AttachFailed {
                message: "denied".into(),
            }
        } else {
            SessionEvent::ConnectFailed {
                message: "denied".into(),
            }
        };
        let step = session.advance(&mut registry, event);
        assert_eq!(step.call, SessionCall::Finish);
        match &step.messages[..] {
            [PodExecSessionMessage::Error {
                session_id,
                message,
            }] => {
                assert_eq!(session_id, &id);
                assert_eq!(message, "denied");
            }
            other => panic!("{other:?}"),
        }
        assert_eq!(registry.list()[0].status, "error");
        assert_eq!(registry.list()[0].last_error.as_deref(), Some("denied"));
    }
}
