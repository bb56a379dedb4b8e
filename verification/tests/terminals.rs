use stellaclaw::json::{Json, JsonNumber};
use stellaclaw::terminal_sessions::{TerminalManager, TerminalScope};
use stellaclaw::web::frame::{
    classify_frame, decode_frame, encode_frame, encode_limited_frame, handshake_response,
    websocket_accept_key, ClientWebSocketFrame, FrameError, FrameProgress, OPCODE_BINARY,
    OPCODE_CLOSE, OPCODE_PING, OPCODE_PONG, OPCODE_TEXT, SMALL_FRAME_BYTES,
    WEBSOCKET_MAX_FRAME_BYTES,
};
use stellaclaw::web::http::HttpError;
use stellaclaw::web::session_terminal::{
    client_step, heartbeat_message, join_terminal, list_terminals_response, on_terminal_event,
    snapshot_messages, terminal_http_response, ClientStep, Joining,
};
use stellaclaw::web::terminal_stream::{
    attached_terminal, client_event, decode_terminal_data, joining_offset,
    parse_terminal_websocket_control, terminal_answer, StreamAction, TerminalChunk, TerminalDataEncoding, TerminalReplaySnapshot, TerminalRequest,
    TerminalResponse, TerminalStream, TerminalWebSocketControl, TerminalWebSocketEvent,
};
use stellaclaw::web_terminal::{
    check_local_cwd, local_cwd, normalize_relative_cwd, output_limit, remote_shell_command,
    resolve_remote_cwd, resolve_shell, shell_quote, terminal_command, valid_shell_name,
    OutputBuffer, TerminalCreateRequest, TerminalResizeRequest,
    ToolRemoteMode, WebTerminalError,
};

fn scope(conversation_id: &str, remote_mode: ToolRemoteMode) -> TerminalScope {
    TerminalScope {
        conversation_id: conversation_id.to_string(),
        remote_mode,
    }
}

fn shell(cols: Option<u16>, rows: Option<u16>) -> TerminalCreateRequest {
    TerminalCreateRequest {
        shell: Some("/bin/sh".to_string()),
        cwd: None,
        cols,
        rows,
    }
}

#[test]
fn terminal_create_sets_term_and_keeps_session_across_list() {
    let state = scope("web-main-test-term-env", ToolRemoteMode::Selectable);
    let mut manager = TerminalManager::new();
    let plan = manager
        .create(&state, &shell(Some(81), Some(22)), None)
        .expect("create terminal");
    let terminal = manager.opened(&state, plan, "/work".to_string(), 1000);
    assert_eq!(terminal.cols, 81);
    assert_eq!(terminal.rows, 22);
    assert!(manager
        .check_input(&state, &terminal.terminal_id)
        .is_ok());

    manager.append_output(&terminal.terminal_id, b"TERM=xterm-256color\r\n", 1001);
    let output = manager
        .output(&state, &terminal.terminal_id, 0, output_limit(None))
        .expect("read output");
    assert!(
        output.data.contains("TERM=xterm-256color"),
        "{}",
        output.data
    );
    assert!(output.next_offset > output.offset);

    let listed = manager.list(&state);
    assert_eq!(listed.len(), 1);
    assert_eq!(listed[0].terminal_id, terminal.terminal_id);
    assert!(remote_shell_command("~", "/bin/sh").starts_with("export TERM=xterm-256color"));

    let _ = manager.terminate(&state, &terminal.terminal_id, 1002);
    assert!(manager.list(&state).is_empty());
}

#[test]
fn terminal_list_resets_sessions_after_remote_mode_changes() {
    let state = scope("web-main-test-remote-reset", ToolRemoteMode::Selectable);
    let mut manager = TerminalManager::new();
    let plan = manager
        .create(&state, &shell(None, None), None)
        .expect("create terminal");
    let terminal = manager.opened(&state, plan, "/work".to_string(), 1);

    let remote_state = scope(
        &state.conversation_id,
        ToolRemoteMode::FixedSsh {
            host: "example-host".to_string(),
            cwd: Some("~/repo".to_string()),
        },
    );
    assert!(manager.list(&remote_state).is_empty());
    assert!(matches!(
        manager.get(&remote_state, &terminal.terminal_id),
        Err(WebTerminalError::NotFound)
    ));
}

#[test]
fn terminals_of_a_moved_conversation_are_gone_for_good() {
    let local = scope("c", ToolRemoteMode::Selectable);
    let remote = scope(
        "c",
        ToolRemoteMode::FixedSsh {
            host: "h".to_string(),
            cwd: None,
        },
    );
    let other = scope("d", ToolRemoteMode::Selectable);
    let mut manager = TerminalManager::new();
    let plan = manager.create(&local, &shell(None, None), None).unwrap();
    let own = manager.opened(&local, plan, "/w".to_string(), 1);
    let plan = manager.create(&other, &shell(None, None), None).unwrap();
    let foreign = manager.opened(&other, plan, "/w".to_string(), 1);
    assert!(manager.take_dropped().is_empty());

    assert!(matches!(
        manager.output(&remote, &own.terminal_id, 0, 10),
        Err(WebTerminalError::NotFound)
    ));
    assert!(manager.list(&local).is_empty());
    assert!(matches!(
        manager.get(&local, &own.terminal_id),
        Err(WebTerminalError::NotFound)
    ));
    assert_eq!(manager.take_dropped(), vec![own.terminal_id]);
    assert!(manager.take_dropped().is_empty());
    assert!(manager.get(&other, &foreign.terminal_id).is_ok());
    assert!(manager.lookup(&other, &foreign.terminal_id).unwrap().running);
    assert_eq!(
        manager
            .check_resize(&other, &foreign.terminal_id, TerminalResizeRequest { cols: 90, rows: 30 })
            .unwrap(),
        (90, 30)
    );
    assert!(!manager.terminate(&other, &foreign.terminal_id, 2).unwrap().running);
    assert_eq!(manager.take_dropped(), vec![foreign.terminal_id]);
}

#[test]
fn moved_terminals_do_not_count_against_the_limit() {
    let local = scope("c", ToolRemoteMode::Selectable);
    let remote = scope(
        "c",
        ToolRemoteMode::FixedSsh {
            host: "h".to_string(),
            cwd: None,
        },
    );
    let mut manager = TerminalManager::new();
    for _ in 0..8 {
        let plan = manager.create(&local, &shell(None, None), None).unwrap();
        manager.opened(&local, plan, "/w".to_string(), 1);
    }
    assert!(matches!(
        manager.create(&local, &shell(None, None), None),
        Err(WebTerminalError::LimitExceeded(_))
    ));
    // A request that is refused for its shell drops nothing.
    let mut wrong = shell(None, None);
    wrong.shell = Some("sh; ls".to_string());
    assert!(matches!(
        manager.create(&remote, &wrong, None),
        Err(WebTerminalError::InvalidRequest(_))
    ));
    assert_eq!(manager.sessions.len(), 8);
    assert!(manager.create(&remote, &shell(None, None), None).is_ok());
    assert_eq!(manager.sessions.len(), 0);
    assert_eq!(manager.take_dropped().len(), 8);
}

#[test]
fn terminals_are_found_only_in_their_conversation() {
    let state = scope("a", ToolRemoteMode::Selectable);
    let mut manager = TerminalManager::new();
    let plan = manager.create(&state, &shell(Some(1), Some(9999)), None).unwrap();
    let t = manager.opened(&state, plan, "/w".to_string(), 1);
    let elsewhere = scope("b", ToolRemoteMode::Selectable);
    assert!(manager.get(&elsewhere, &t.terminal_id).is_err());
    assert!(t.cols > 1 && t.rows < 9999);
    manager.finished(&t.terminal_id, 2);
    assert!(manager.check_input(&state, &t.terminal_id).is_err());
    assert_eq!(WebTerminalError::NotFound.message(), "terminal_not_found");
}

#[test]
fn output_is_read_on_from_where_a_reading_ended() {
    let mut buffer = OutputBuffer::new();
    buffer.append(b"hello ");
    buffer.append(b"world");
    let (first, next) = buffer.read(0, 6);
    assert_eq!(first, "hello ");
    let (second, end) = buffer.read(next, 100);
    assert_eq!(second, "world");
    assert_eq!(end, 11);
    assert_eq!(output_limit(Some(0)), 1);
}

#[test]
fn shells_and_directories_are_checked() {
    assert!(valid_shell_name("/bin/bash"));
    assert!(!valid_shell_name("sh; rm"));
    let local = ToolRemoteMode::Selectable;
    assert_eq!(
        resolve_shell(&None, &local, Some("/bin/zsh")).unwrap(),
        "/bin/zsh"
    );
    assert!(resolve_shell(&Some("a b".to_string()), &local, None).is_err());
    assert!(normalize_relative_cwd(&Some("../up".to_string())).is_err());
    assert_eq!(
        normalize_relative_cwd(&Some(" a/./b ".to_string())).unwrap().as_deref(),
        Some("a/b")
    );
    assert_eq!(
        resolve_remote_cwd(&Some("~/repo".to_string()), &Some("src".to_string())),
        "~/repo/src"
    );
    assert_eq!(shell_quote("it's"), "'it'\\''s'");
}

fn control(kind: &str, offset: Option<u64>, cols: Option<u16>, rows: Option<u16>) -> TerminalWebSocketControl {
    TerminalWebSocketControl {
        kind: kind.to_string(),
        offset,
        cols,
        rows,
    }
}

fn read_control(raw: &str) -> TerminalWebSocketControl {
    let v: serde_json::Value = serde_json::from_str(raw).unwrap();
    control(
        v["type"].as_str().unwrap(),
        v["offset"].as_u64(),
        v["cols"].as_u64().map(|n| n as u16),
        v["rows"].as_u64().map(|n| n as u16),
    )
}

#[test]
fn parses_terminal_websocket_control_frames() {
    assert!(matches!(
        parse_terminal_websocket_control(Some(&read_control(r#"{"type":"attach","offset":123}"#)))
            .expect("parse attach"),
        TerminalWebSocketEvent::Attach(123)
    ));
    assert!(matches!(
        parse_terminal_websocket_control(Some(&read_control(
            r#"{"type":"resize","cols":120,"rows":32}"#
        )))
        .expect("parse resize"),
        TerminalWebSocketEvent::Resize(TerminalResizeRequest {
            cols: 120,
            rows: 32
        })
    ));
    assert!(matches!(
        parse_terminal_websocket_control(Some(&read_control(r#"{"type":"ping"}"#)))
            .expect("parse ping"),
        TerminalWebSocketEvent::JsonPing
    ));
    assert!(parse_terminal_websocket_control(Some(&read_control(
        r#"{"type":"resize","cols":120}"#
    )))
    .is_err());
}

#[test]
fn wrong_control_messages_say_what_is_wrong() {
    assert_eq!(
        parse_terminal_websocket_control(None).unwrap_err(),
        "failed to parse terminal websocket control message"
    );
    assert_eq!(
        parse_terminal_websocket_control(Some(&control("resize", None, None, Some(1)))).unwrap_err(),
        "terminal resize control is missing cols"
    );
    assert_eq!(
        parse_terminal_websocket_control(Some(&control("resize", None, Some(1), None))).unwrap_err(),
        "terminal resize control is missing rows"
    );
    assert_eq!(
        parse_terminal_websocket_control(Some(&control("dance", None, None, None))).unwrap_err(),
        "unsupported terminal websocket control type dance"
    );
    assert!(matches!(
        parse_terminal_websocket_control(Some(&control("attach", None, None, None))).unwrap(),
        TerminalWebSocketEvent::Attach(0)
    ));
    assert!(matches!(
        client_event(None, None),
        Some(TerminalWebSocketEvent::Close)
    ));
    assert!(client_event(Some(ClientWebSocketFrame::Pong), None).is_none());
    assert!(matches!(
        client_event(Some(ClientWebSocketFrame::Text("x".to_string())), None),
        Some(TerminalWebSocketEvent::Error(_))
    ));
}

fn replay(running: bool, dropped: u64, chunks: Vec<TerminalChunk>) -> TerminalReplaySnapshot {
    TerminalReplaySnapshot {
        terminal_id: "t1".to_string(),
        requested_offset: 3,
        replay_start_offset: 4,
        buffer_start_offset: 4,
        next_offset: 9,
        dropped_bytes: dropped,
        running,
        chunks,
    }
}

fn chunk(encoding: TerminalDataEncoding, data: &str) -> TerminalChunk {
    TerminalChunk {
        encoding,
        data: data.to_string(),
    }
}

fn message<'a>(action: &'a StreamAction) -> &'a Json {
    match action {
        StreamAction::Message { payload, .. } => payload,
        other => panic!("no message: {other:?}"),
    }
}

#[test]
fn a_client_that_joins_sees_what_was_written() {
    let stream = TerminalStream {
        terminal_id: "t1".to_string(),
        subscriber_id: Some(5),
    };
    let actions = stream.start(&replay(
        true,
        1,
        vec![
            chunk(TerminalDataEncoding::Utf8, "hé"),
            chunk(TerminalDataEncoding::Base64, "aGVsbG8="),
        ],
    ));
    assert_eq!(actions.len(), 4);
    assert_eq!(message(&actions[0]).text_field("type"), Some("attached"));
    assert_eq!(message(&actions[0]).unsigned_field("offset"), Some(3));
    assert_eq!(message(&actions[1]).unsigned_field("dropped_bytes"), Some(1));
    assert!(
        matches!(&actions[2], StreamAction::Frame { opcode, payload } if *opcode == OPCODE_BINARY && payload == "hé".as_bytes())
    );
    assert!(
        matches!(&actions[3], StreamAction::Frame { payload, .. } if payload == b"hello")
    );

    let ended = stream.start(&replay(false, 0, vec![]));
    assert_eq!(ended.len(), 4);
    assert_eq!(message(&ended[1]).text_field("type"), Some("exit"));
    assert!(matches!(ended[2], StreamAction::Close { has_to_arrive: true }));
    assert!(matches!(ended[3], StreamAction::End));

    let broken = stream.start(&replay(
        false,
        0,
        vec![chunk(TerminalDataEncoding::Base64, "***")],
    ));
    assert!(
        matches!(broken.last(), Some(StreamAction::Fail(m)) if m.starts_with("failed to decode terminal base64 payload: "))
    );
}

#[test]
fn a_terminal_stream_answers_what_happens() {
    let stream = TerminalStream {
        terminal_id: "t1".to_string(),
        subscriber_id: Some(5),
    };
    let output = |id: &str, subscriber: Option<u64>, data: &str| TerminalResponse::Output {
        terminal_id: id.to_string(),
        subscriber_id: subscriber,
        encoding: TerminalDataEncoding::Base64,
        data: data.to_string(),
    };
    let shown = stream.on_service(Some(&output("t1", Some(5), "aGVsbG8=")));
    assert!(matches!(&shown[0], StreamAction::Frame { payload, .. } if payload == b"hello"));
    assert!(stream.on_service(Some(&output("t1", Some(6), "aGVsbG8="))).is_empty());
    assert!(stream.on_service(Some(&output("t2", Some(5), "aGVsbG8="))).is_empty());
    let bad = stream.on_service(Some(&output("t1", Some(5), "*")));
    assert_eq!(
        message(&bad[0]).text_field("error"),
        Some("invalid_terminal_output")
    );
    assert!(matches!(
        stream.on_service(None)[..],
        [StreamAction::Close { has_to_arrive: false }, StreamAction::End]
    ));

    let asked = stream.on_client(TerminalWebSocketEvent::Input(b"ls\n".to_vec()));
    match &asked[0] {
        StreamAction::Ask {
            label,
            request: TerminalRequest::Input { encoding, data, .. },
        } => {
            assert_eq!(*label, "terminal-input");
            assert_eq!(data, "bHMK");
            assert_eq!(decode_terminal_data(*encoding, data).unwrap(), b"ls\n");
        }
        other => panic!("no input: {other:?}"),
    }
    assert!(matches!(
        stream.on_client(TerminalWebSocketEvent::Attach(7))[..],
        [
            StreamAction::Ask {
                request: TerminalRequest::Replay { offset: 7, .. },
                ..
            },
            StreamAction::AwaitReplay
        ]
    ));
    let pong = stream.on_client(TerminalWebSocketEvent::JsonPing);
    assert_eq!(message(&pong[0]).text_field("type"), Some("pong"));
    assert!(matches!(
        &stream.on_client(TerminalWebSocketEvent::WsPing(vec![1]))[0],
        StreamAction::Frame { opcode, .. } if *opcode == OPCODE_PONG
    ));
    assert!(matches!(
        stream.on_client(TerminalWebSocketEvent::Close)[..],
        [StreamAction::Close { has_to_arrive: false }, StreamAction::End]
    ));
    let failed = stream.on_request_failed(
        &TerminalRequest::Resize {
            terminal_id: "t1".to_string(),
            request: TerminalResizeRequest { cols: 1, rows: 1 },
        },
        "no",
    );
    assert_eq!(
        message(&failed[0]).text_field("error"),
        Some("terminal_resize_failed")
    );
    assert!(matches!(failed[2], StreamAction::End));
    let answered = stream.on_replay(&Ok(TerminalResponse::Replay {
        replay: replay(true, 0, vec![]),
    }));
    assert_eq!(answered.len(), 1);
    assert!(stream.on_replay(&Ok(TerminalResponse::Other)).is_empty());
    let refused = stream.on_replay(&Err(HttpError::new(504, "late")));
    assert_eq!(message(&refused[0]).text_field("message"), Some("late"));
    assert!(matches!(
        &stream.on_heartbeat()[0],
        StreamAction::Frame { opcode, payload } if *opcode == OPCODE_PING && payload.is_empty()
    ));
    assert!(matches!(
        stream.finish(),
        Some(TerminalRequest::Detach { subscriber_id: 5, .. })
    ));
}

#[test]
fn terminals_of_sessions_are_shown_as_messages() {
    let joined = join_terminal(
        TerminalResponse::Attached {
            replay: replay(true, 2, vec![chunk(TerminalDataEncoding::Utf8, "x")]),
            subscriber_id: None,
        },
        "",
    );
    match joined {
        Joining::Joined { replay, .. } => {
            let list = snapshot_messages("t1", &replay);
            assert_eq!(list.len(), 3);
            assert_eq!(list[0].text_field("type"), Some("terminal.snapshot"));
            assert_eq!(list[1].text_field("type"), Some("terminal.dropped"));
            assert_eq!(list[2].text_field("encoding"), Some("utf8"));
        }
        _ => panic!("the terminal was joined"),
    }
    assert!(
        matches!(join_terminal(TerminalResponse::Other, "List"), Joining::Refused(p) if p.text_field("message") == Some("unexpected terminal response: List"))
    );

    let resize = Json::Object(vec![
        ("type".to_string(), Json::text("resize")),
        ("cols".to_string(), Json::number(70000)),
        ("rows".to_string(), Json::number(40)),
    ]);
    let text = ClientWebSocketFrame::Text(String::new());
    assert!(matches!(
        client_step("t1", &text, Some(&resize)),
        ClientStep::Ask {
            request: TerminalRequest::Resize {
                request: TerminalResizeRequest { cols: 120, rows: 40 },
                ..
            },
            ..
        }
    ));
    assert!(matches!(client_step("t1", &text, None), ClientStep::Nothing));
    assert!(matches!(
        client_step("t1", &ClientWebSocketFrame::Close, None),
        ClientStep::Stop
    ));
    assert!(matches!(
        client_step("t1", &ClientWebSocketFrame::Binary(vec![]), None),
        ClientStep::Nothing
    ));
    let (payload, closed) = on_terminal_event(
        "t1",
        Some(1),
        &TerminalResponse::Detached {
            terminal_id: "t1".to_string(),
            subscriber_id: 1,
        },
    );
    assert!(closed);
    assert_eq!(payload.unwrap().text_field("type"), Some("terminal.closed"));
    let (payload, closed) = on_terminal_event(
        "t1",
        Some(1),
        &TerminalResponse::Terminal {
            terminal_id: "t1".to_string(),
            running: true,
            next_offset: 0,
            terminal: Json::Null,
        },
    );
    assert!(payload.is_none() && !closed);
    assert_eq!(
        heartbeat_message("terminal.heartbeat", "now").text_field("server_time"),
        Some("now")
    );
    let e = terminal_http_response(
        TerminalResponse::Error {
            message: "bad".to_string(),
        },
        Json::Null,
    )
    .unwrap_err();
    assert_eq!((e.status, e.message.as_str()), (400, "bad"));
    let list = list_terminals_response(
        TerminalResponse::Terminals {
            terminals: Json::Array(vec![]),
        },
        Json::Null,
    )
    .unwrap();
    assert!(matches!(list.get("terminals"), Some(Json::Array(a)) if a.is_empty()));
    let _ = JsonNumber::Unsigned(1);
}

#[test]
fn frames_are_read_back() {
    for n in [0usize, 5, 125, 126, 1000, 65535, 65536] {
        let payload: Vec<u8> = (0..n).map(|i| (i % 251) as u8).collect();
        let frame = encode_frame(OPCODE_BINARY, &payload);
        match decode_frame(&frame, WEBSOCKET_MAX_FRAME_BYTES) {
            FrameProgress::Whole {
                opcode,
                payload: back,
                size,
            } => {
                assert_eq!(opcode, OPCODE_BINARY);
                assert_eq!(back, payload);
                assert_eq!(size, frame.len());
            }
            other => panic!("no frame: {other:?}"),
        }
    }
    assert!(encode_limited_frame(OPCODE_TEXT, &vec![0; WEBSOCKET_MAX_FRAME_BYTES + 1]).is_none());
    let large = encode_frame(OPCODE_TEXT, &vec![0; SMALL_FRAME_BYTES + 1]);
    assert!(matches!(
        decode_frame(&large, SMALL_FRAME_BYTES),
        FrameProgress::TooLarge
    ));
    let masked = [0x81u8, 0x85, 1, 2, 3, 4, b'h' ^ 1, b'e' ^ 2, b'l' ^ 3, b'l' ^ 4, b'o' ^ 1];
    match decode_frame(&masked, SMALL_FRAME_BYTES) {
        FrameProgress::Whole { opcode, payload, .. } => {
            assert!(
                matches!(classify_frame(opcode, payload), Ok(ClientWebSocketFrame::Text(t)) if t == "hello")
            );
        }
        other => panic!("no frame: {other:?}"),
    }
    assert!(matches!(decode_frame(&masked[..4], 100), FrameProgress::Incomplete(_)));
    assert!(matches!(classify_frame(OPCODE_TEXT, vec![255]), Err(FrameError::NotUtf8)));
    assert!(matches!(classify_frame(3, vec![]), Err(FrameError::UnsupportedOpcode(3))));
    assert!(matches!(classify_frame(OPCODE_CLOSE, vec![]), Ok(ClientWebSocketFrame::Close)));
}

#[test]
fn the_handshake_answers_the_key() {
    assert_eq!(
        websocket_accept_key("dGhlIHNhbXBsZSBub25jZQ=="),
        "s3pPLMBiTxaQ9kYGzzhZRbK+xOo="
    );
    assert!(handshake_response("dGhlIHNhbXBsZSBub25jZQ==")
        .contains("Sec-WebSocket-Accept: s3pPLMBiTxaQ9kYGzzhZRbK+xOo=\r\n\r\n"));
}

#[test]
fn shells_start_where_they_are_asked_to() {
    assert_eq!(local_cwd("/work", &None), "/work");
    assert_eq!(local_cwd("/work", &Some("src".to_string())), "/work/src");
    assert!(check_local_cwd("/work", true, true).is_ok());
    assert_eq!(
        check_local_cwd("/work/a", true, false).unwrap_err().message(),
        "terminal cwd is not a directory: /work/a"
    );
    assert_eq!(
        check_local_cwd("/work/b", false, false).unwrap_err().message(),
        "terminal cwd does not exist: /work/b"
    );
    assert_eq!(
        terminal_command(&ToolRemoteMode::Selectable, "/work", "/bin/sh"),
        vec!["/bin/sh"]
    );
    let remote = ToolRemoteMode::FixedSsh {
        host: "box".to_string(),
        cwd: None,
    };
    assert_eq!(
        terminal_command(&remote, "~", "bash"),
        vec![
            "ssh".to_string(),
            "-tt".to_string(),
            "box".to_string(),
            "--".to_string(),
            remote_shell_command("~", "bash"),
        ]
    );
}

#[test]
fn terminal_ids_count_up() {
    let mut manager = TerminalManager::new();
    let scope = scope("c", ToolRemoteMode::Selectable);
    let request = TerminalCreateRequest {
        shell: None,
        cwd: None,
        cols: None,
        rows: None,
    };
    let first = manager.create(&scope, &request, None).unwrap();
    let second = manager.create(&scope, &request, None).unwrap();
    assert_eq!(first.terminal_id, "terminal_0000");
    assert_eq!(second.terminal_id, "terminal_0001");
    manager.next_index = 12345;
    let later = manager.create(&scope, &request, None).unwrap();
    assert_eq!(later.terminal_id, "terminal_12345");
}

#[test]
fn answers_of_terminals_are_taken_or_refused() {
    let refused = || TerminalResponse::Error {
        message: "gone".to_string(),
    };
    assert_eq!(terminal_answer(refused()).unwrap_err().status, 400);
    assert!(matches!(
        terminal_answer(TerminalResponse::Other),
        Ok(TerminalResponse::Other)
    ));
    let terminal = TerminalResponse::Terminal {
        terminal_id: "t".to_string(),
        running: true,
        next_offset: 9,
        terminal: Json::Null,
    };
    assert_eq!(joining_offset(&terminal, None).unwrap(), 9);
    assert_eq!(joining_offset(&terminal, Some(3)).unwrap(), 3);
    assert_eq!(
        joining_offset(&TerminalResponse::Other, Some(3)).unwrap_err().message,
        "unexpected_terminal_response"
    );
    let joined = attached_terminal(TerminalResponse::Attached {
        replay: replay(true, 0, vec![]),
        subscriber_id: Some(4),
    })
    .unwrap();
    assert_eq!(joined.1, Some(4));
    assert_eq!(attached_terminal(refused()).unwrap_err().message, "gone");
    assert_eq!(
        attached_terminal(TerminalResponse::Other).unwrap_err().status,
        500
    );
}

#[test]
fn a_buffer_keeps_the_newest_output() {
    let most = 2 * 1024 * 1024;
    let mut buffer = OutputBuffer::new();
    buffer.append(b"old");
    let mut much = vec![b'x'; most];
    much.extend_from_slice(b"end");
    buffer.append(&much);
    assert_eq!(buffer.bytes.len(), most);
    assert!(buffer.bytes.ends_with(b"xend"));
    assert_eq!(buffer.start_offset, 6);
    assert_eq!(buffer.next_offset, most as u64 + 6);
    buffer.append(b"!!");
    assert_eq!(buffer.bytes.len(), most);
    assert!(buffer.bytes.ends_with(b"end!!"));
    assert_eq!(buffer.start_offset, 8);
    assert_eq!(buffer.next_offset - buffer.start_offset, most as u64);
}
