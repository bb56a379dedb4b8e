use stellaclaw::channels::{
    ConversationControl, OutgoingDelivery, OutgoingError, OutgoingErrorScope,
    OutgoingErrorSeverity, OutgoingMessageAppended, OutgoingSessionStream, ProcessingState,
};
use stellaclaw::chat::{ChatMessage, ChatRole, FileItem, ToolResultItem};
use stellaclaw::json::{Json, JsonNumber};
use stellaclaw::json_ops::copy_array;
use stellaclaw::progress::{
    turn_progress_payload, OutgoingProgressFeedback, ProgressFeedbackFinalState, TurnProgress,
    TurnProgressPhase, TurnProgressPlan, TurnProgressPlanItem, TurnProgressPlanItemStatus,
};
use stellaclaw::text_map::TextMap;
use stellaclaw::web::control::{parse_web_control, parse_web_control_command, parse_reasoning_effort_argument};
use stellaclaw::web::conversations::{
    appended_event, chat_snapshot, created_session_id, delete_session_reply, delivery_event,
    error_event, home_snapshot, list_conversations, list_messages, mark_seen, message_detail,
    name_conversation, nested_stream_event, rename_conversation, set_session_nickname,
};
use stellaclaw::web::history::{ConversationMessageSummary, MessageOrder};
use stellaclaw::web::http::{
    authorized, authorized_by_header, build_request_from_text, page_window, query_bool,
    response_head, status_reason, target_can_be_cut, HttpRequest,
};
use stellaclaw::web::ids::{
    conversation_nickname, foreground_route_id_from_storage_id, foreground_session_storage_id,
    message_log_path, sanitize_session_id_for_log_path, validate_conversation_id,
    ConversationMetadata,
};
use stellaclaw::web::lists::sort_by_field;
use stellaclaw::web::live::{append_text_delta, item_id_if_readable, public_chat_stream_payload, ChatLiveState};
use stellaclaw::web::main_state::{ConversationSeen, MainEffect, WebChannelMain, WebMainCommand};
use stellaclaw::web::protocol::{
    AgentSessionState, HomeEvent, HomeForegroundSessionState, QueuedOutboundMessage,
};
use stellaclaw::web::routes::{
    dispatch_request, dispatch_session_request, session_stream_route, stream_route, Dispatch,
    RouteKind, StreamRoute,
};
use stellaclaw::web::session_book::{to_listeners, BookEffect, SessionBook};
use stellaclaw::web::single_session::{
    check_conversation_id, check_session, error_event as single_error_event, event_for_subscriber,
    foreground_message_index, heartbeat_is_due, incoming_message, own_conversation,
    turn_completed_event, websocket_subscription_ack, WebChannelBook,
};
use stellaclaw::web::state::{ForegroundLiveState, ForegroundSessionKey, WebChannelMainState};
use stellaclaw::web::summary::{foreground_session_ids, foreground_session_summary};
use stellaclaw::web::url::{
    api_segments, can_be_cut, parse_query, percent_decode, percent_decode_lenient,
    percent_encode_query_value, split_path,
};
use stellaclaw::web::workspace::{
    conversation_workspace_file_request, conversation_workspace_request, downloaded_archive,
    is_image_workspace_path, read_file_request, service_wait_error, upload_archive_request,
    wait_error, workspace_answer, WaitFailure, WorkspaceFileEncoding, WorkspaceRequest, WorkspaceResponse,
};

fn json_of(value: &serde_json::Value) -> Json {
    match value {
        serde_json::Value::Null => Json::Null,
        serde_json::Value::Bool(b) => Json::Bool(*b),
        serde_json::Value::Number(n) => {
            if let Some(u) = n.as_u64() {
                Json::Number(JsonNumber::Unsigned(u))
            } else if let Some(i) = n.as_i64() {
                Json::Number(JsonNumber::Negative(i))
            } else {
                Json::Number(JsonNumber::Other(n.to_string()))
            }
        }
        serde_json::Value::String(t) => Json::Text(t.clone()),
        serde_json::Value::Array(list) => Json::Array(list.iter().map(json_of).collect()),
        serde_json::Value::Object(map) => {
            Json::Object(map.iter().map(|(k, v)| (k.clone(), json_of(v))).collect())
        }
    }
}

fn parse(text: &str) -> Json {
    json_of(&serde_json::from_str(text).unwrap())
}

fn at<'a>(value: &'a Json, path: &[&str]) -> &'a Json {
    let mut v = value;
    for key in path {
        v = match v {
            Json::Array(list) => &list[key.parse::<usize>().unwrap()],
            other => other.get(key).unwrap(),
        };
    }
    v
}

fn is_null(value: &Json) -> bool {
    matches!(value, Json::Null)
}

fn state(conversation_id: &str) -> ConversationMetadata {
    ConversationMetadata {
        conversation_id: conversation_id.to_string(),
        nickname: conversation_id.to_string(),
        channel_id: "web-main".to_string(),
        platform_chat_id: "test-chat".to_string(),
        foreground_session_id: format!("{conversation_id}.foreground"),
        model_selection_pending: false,
        session_nicknames: TextMap::new(),
    }
}

fn request(head: &str) -> HttpRequest {
    build_request_from_text(head, Vec::new())
}

// ---------------------------------------------------------------------------

#[test]
fn message_log_path_uses_stellaclaw_log_directory() {
    let state = state("web-main-test-message-log-path");
    let root = format!("/work/conversations/{}", state.conversation_id);
    assert_eq!(
        message_log_path(&root, &state.foreground_session_id),
        format!(
            "{root}/.stellaclaw/log/{}/all_messages.jsonl",
            state.foreground_session_id
        )
    );
    assert!(message_log_path(&root, "a/b").ends_with("/log/a_b/all_messages.jsonl"));
}

#[test]
fn session_ids_make_one_part_of_a_path() {
    assert_eq!(sanitize_session_id_for_log_path("a/b:c.d-e_f"), "a_b_c.d-e_f");
}

#[test]
fn parses_api_segments() {
    assert_eq!(
        api_segments("/api/conversations/abc/messages"),
        vec!["conversations", "abc", "messages"]
    );
}

#[test]
fn parses_web_control_commands() {
    assert!(matches!(
        parse_web_control("/model main"),
        Some(ConversationControl::SwitchModel { model_name }) if model_name == "main"
    ));
    assert!(matches!(
        parse_web_control("/status"),
        Some(ConversationControl::ShowStatus)
    ));
    assert!(matches!(
        parse_web_control("/compact"),
        Some(ConversationControl::Compact)
    ));
    assert!(matches!(
        parse_web_control("/reasoning"),
        Some(ConversationControl::ShowReasoning)
    ));
    assert!(matches!(
        parse_web_control("/reasoning high"),
        Some(ConversationControl::SetReasoning { effort: Some(effort) }) if effort == "high"
    ));
    assert!(matches!(
        parse_web_control("/reasoning default"),
        Some(ConversationControl::SetReasoning { effort: None })
    ));
    assert!(matches!(
        parse_web_control("/remote demo-host ~/repo"),
        Some(ConversationControl::SetRemote { host, path })
            if host == "demo-host" && path == "~/repo"
    ));
    assert!(matches!(
        parse_web_control("/remote off"),
        Some(ConversationControl::DisableRemote)
    ));
}

#[test]
fn commands_are_read_with_their_arguments() {
    assert_eq!(
        parse_web_control_command("  /model@bot  gpt  "),
        Some(("/model", "gpt"))
    );
    assert_eq!(parse_web_control_command("model gpt"), None);
    assert_eq!(
        parse_reasoning_effort_argument(" HIGH ").unwrap().as_deref(),
        Some("high")
    );
    assert!(parse_reasoning_effort_argument("show").unwrap().is_none());
    let e = parse_reasoning_effort_argument("Wild").unwrap_err();
    assert_eq!(
        (e.status, e.message.as_str()),
        (400, "unknown reasoning effort wild")
    );
    assert!(matches!(
        parse_web_control("/remote host"),
        Some(ConversationControl::InvalidRemote { reason }) if reason == "remote command requires host and path."
    ));
    assert!(parse_web_control("/sandbox x").is_none());
}

#[test]
fn turn_progress_payload_is_structured() {
    let feedback = OutgoingProgressFeedback {
        channel_id: "web-main".to_string(),
        platform_chat_id: "test-chat".to_string(),
        turn_id: "turn-1".to_string(),
        progress: TurnProgress {
            phase: TurnProgressPhase::Working,
            model: "gpt-5.5".to_string(),
            activity: "读取代码".to_string(),
            hint: Some("发送新消息可打断".to_string()),
            plan: Some(TurnProgressPlan {
                explanation: Some("先确认链路".to_string()),
                items: vec![TurnProgressPlanItem {
                    step: "检查 ChannelEvent".to_string(),
                    status: TurnProgressPlanItemStatus::InProgress,
                }],
            }),
            error: None,
        },
        final_state: None,
        important: true,
    };

    let payload = turn_progress_payload(&feedback);

    assert_eq!(payload.text_field("type"), Some("turn_progress"));
    assert!(payload.get("subscription").is_none());
    assert_eq!(payload.text_field("turn_id"), Some("turn-1"));
    assert_eq!(payload.text_field("phase"), Some("working"));
    assert_eq!(payload.text_field("model"), Some("gpt-5.5"));
    assert_eq!(payload.text_field("activity"), Some("读取代码"));
    assert_eq!(payload.text_field("hint"), Some("发送新消息可打断"));
    assert!(is_null(at(&payload, &["final_state"])));
    assert_eq!(payload.bool_field("important"), Some(true));
    assert_eq!(
        at(&payload, &["plan", "items", "0", "status"]).as_text(),
        Some("in_progress")
    );
    assert_eq!(at(&payload, &["progress", "phase"]).as_text(), Some("working"));
    assert!(payload.get("text").is_none());

    let mut book = WebChannelBook::new(TextMap::new());
    let shown = book.update_progress(&feedback);
    assert!(shown.same(&payload));
    let held = book.active_turn_progress(&state("c")).unwrap();
    assert_eq!(held.text_field("conversation_id"), Some("c"));
    let last = OutgoingProgressFeedback {
        final_state: Some(ProgressFeedbackFinalState::Done),
        ..feedback
    };
    let _ = book.update_progress(&last);
    assert!(book.active_turn_progress(&state("c")).is_none());
}

#[test]
fn conversation_nickname_falls_back_to_conversation_id() {
    let mut state = state("web-main-test-nickname");
    state.nickname = " Project Alpha ".to_string();
    assert_eq!(conversation_nickname(&state), "Project Alpha");

    state.nickname.clear();
    assert_eq!(conversation_nickname(&state), state.conversation_id);
}

#[test]
fn websocket_ack_reports_current_message_id_and_next_index() {
    let state = state("web-main-test-ws-ack");
    let summary = ConversationMessageSummary {
        message_count: 3,
        last_message_id: Some("msg_3".to_string()),
        last_message_time: None,
    };
    let payload = websocket_subscription_ack(
        &state,
        &summary,
        "subscribed",
        Some(parse(r#"{"type": "turn_progress", "turn_id": "turn-1"}"#)),
    );

    assert_eq!(payload.text_field("type"), Some("subscription_ack"));
    assert!(payload.get("subscription").is_none());
    assert_eq!(payload.text_field("reason"), Some("subscribed"));
    assert_eq!(payload.text_field("current_message_id"), Some("msg_3"));
    assert!(payload.get("next_message_id").is_none());
    assert_eq!(payload.unsigned_field("next_message_index"), Some(3));
    assert_eq!(
        payload.text_field("session_id"),
        Some("web-main-test-ws-ack.foreground")
    );
    assert_eq!(
        at(&payload, &["turn_progress", "turn_id"]).as_text(),
        Some("turn-1")
    );

    let empty = websocket_subscription_ack(
        &state,
        &ConversationMessageSummary {
            message_count: 0,
            last_message_id: None,
            last_message_time: None,
        },
        "subscribed",
        None,
    );
    assert!(is_null(at(&empty, &["current_message_id"])));
    assert!(empty.get("next_message_id").is_none());
    assert_eq!(empty.unsigned_field("next_message_index"), Some(0));
    assert!(is_null(at(&empty, &["turn_progress"])));
}

#[test]
fn stream_payload_is_flat_typed_chat_event() {
    let payload = public_chat_stream_payload(
        "conversation-1",
        "main",
        "stream_assistant_message_delta",
        &parse(
            r#"{
                "type": "stream_assistant_message_delta",
                "message_id": "msg-1",
                "turn_id": "turn-1",
                "delta": "hello"
            }"#,
        ),
    );

    assert_eq!(
        payload.text_field("type"),
        Some("chat.stream_assistant_message_delta")
    );
    assert_eq!(payload.text_field("conversation_id"), Some("conversation-1"));
    assert_eq!(payload.text_field("foreground_session_id"), Some("main"));
    assert!(payload.get("event").is_none());
    assert_eq!(payload.text_field("delta"), Some("hello"));
}

#[test]
fn turn_lifecycle_events_use_public_names() {
    let start = public_chat_stream_payload(
        "conversation-1",
        "main",
        "turn_started",
        &parse(r#"{"type": "turn_started", "turn_id": "turn-1"}"#),
    );
    let done = public_chat_stream_payload(
        "conversation-1",
        "main",
        "turn_completed",
        &parse(r#"{"type": "turn_completed", "message": {"role": "assistant"}}"#),
    );

    assert_eq!(start.text_field("type"), Some("chat.stream_turn_start"));
    assert_eq!(done.text_field("type"), Some("chat.stream_turn_done"));
}

// ---------------------------------------------------------------------------

#[test]
fn a_delta_that_comes_twice_counts_once() {
    assert_eq!(append_text_delta("", "ab"), "ab");
    assert_eq!(append_text_delta("hello wor", "world"), "hello world");
    assert_eq!(append_text_delta("hello world", "world"), "hello world");
    assert_eq!(append_text_delta("hel", "hello"), "hello");
    assert_eq!(append_text_delta("héé", "éx"), "hééx");
    assert_eq!(append_text_delta("ab", "cd"), "abcd");
    assert_eq!(item_id_if_readable(" search "), Some("search"));
    assert_eq!(item_id_if_readable("call_1"), None);
    assert_eq!(item_id_if_readable("fc_1"), None);
    assert_eq!(item_id_if_readable("item_1"), None);
}

#[test]
fn a_turn_is_followed_from_start_to_end() {
    let mut live = ChatLiveState::new();
    assert_eq!(live.summary_state(), "idle");
    live.queue_user_message("m1", "c", "main");
    live.queue_user_message("m1", "c", "main");
    assert_eq!(live.queued_outbound_messages.len(), 1);
    assert_eq!(live.summary_state(), "queued");
    let event = |text: &str, live: &mut ChatLiveState| {
        let v = parse(text);
        let kind = v.text_field("type").unwrap().to_string();
        live.record_session_stream(&v, &kind, "now");
    };
    event(r#"{"type":"turn_started","turn_id":"t1"}"#, &mut live);
    assert_eq!(live.summary_state(), "running");
    assert_eq!(live.active_turn_id(), Some("t1"));
    for part in ["Hello", " wor", "world"] {
        event(
            &format!(
                r#"{{"type":"stream_assistant_message_delta","turn_id":"t1","message_id":"a1","message_index":4,"delta":"{part}"}}"#
            ),
            &mut live,
        );
    }
    let p = live.current_provisional_assistant_message.as_ref().unwrap();
    assert_eq!(at(p, &["message", "text"]).as_text(), Some("Hello world"));
    assert_eq!(at(p, &["message", "index"]).as_unsigned(), Some(4));
    assert_eq!(
        at(p, &["message", "items", "0", "text"]).as_text(),
        Some("Hello world")
    );
    event(
        r#"{"type":"stream_tool_call_delta","turn_id":"t1","message_id":"a1","item_id":"shell","call_id":"","delta":"{\"a\":"}"#,
        &mut live,
    );
    event(
        r#"{"type":"stream_tool_call_delta","turn_id":"t1","message_id":"a1","item_id":"shell","call_id":"shell","delta":"1}"}"#,
        &mut live,
    );
    event(
        r#"{"type":"stream_reasoning_summary_delta","turn_id":"t1","message_id":"a1","summary_index":2,"delta":"why"}"#,
        &mut live,
    );
    let p = live.current_provisional_assistant_message.as_ref().unwrap();
    assert_eq!(
        at(p, &["message", "items", "1", "arguments"]).as_text(),
        Some("{\"a\":1}")
    );
    assert_eq!(
        at(p, &["message", "items", "1", "tool_name"]).as_text(),
        Some("shell")
    );
    assert_eq!(
        at(p, &["message", "items", "2", "summary"]).as_text(),
        Some("why")
    );
    event(
        r#"{"type":"stream_tool_result_done","turn_id":"t1","tool_result":{"tool_call_id":"shell","text":"x"}}"#,
        &mut live,
    );
    assert_eq!(live.running_tool_results.len(), 1);
    live.record_message_appended(
        &parse(
            r#"{"message_id":"a2","items":[{"type":"tool_result","tool_call_id":"shell"}]}"#,
        ),
        5,
        true,
        "c",
    );
    assert_eq!(
        live.running_tool_results[0].bool_field("committed"),
        Some(true)
    );
    assert!(live.queued_outbound_messages.is_empty());
    assert_eq!(live.last_committed_message_id.as_deref(), Some("a2"));
    assert_eq!(live.last_committed_message_index, Some(5));
    event(
        r#"{"type":"stream_error","message_id":"a1","error":"broken"}"#,
        &mut live,
    );
    assert!(live.current_provisional_assistant_message.is_none());
    assert_eq!(live.summary_state(), "failed");
    live.record_user_message_queued("m2", "c", "main");
    assert_eq!(live.summary_state(), "queued");
    event(r#"{"type":"turn_completed"}"#, &mut live);
    assert_eq!(live.summary_state(), "idle");
    assert!(live.last_error.is_none());
}

fn appended(index: usize, role: ChatRole) -> OutgoingMessageAppended {
    OutgoingMessageAppended {
        channel_id: "web".to_string(),
        platform_chat_id: "p".to_string(),
        conversation_id: "c".to_string(),
        session_id: "local__agent__foreground__main".to_string(),
        index,
        message: ChatMessage {
            message_id: "m".to_string(),
            role,
            user_name: None,
            message_time: None,
            token_usage: None,
            data: vec![],
        },
    }
}

fn stream(event: &str) -> OutgoingSessionStream {
    OutgoingSessionStream {
        channel_id: "web".to_string(),
        platform_chat_id: "p".to_string(),
        conversation_id: "c".to_string(),
        session_id: "local__agent__foreground__main".to_string(),
        event: parse(event),
    }
}

#[test]
fn home_payloads_are_numbered_in_order() {
    let mut main = WebChannelMain::new(TextMap::new());
    let queued = main.handle(WebMainCommand::UserMessageQueued {
        conversation_id: "c".to_string(),
        foreground_session_id: "main".to_string(),
        client_message_id: "m1".to_string(),
    });
    assert!(matches!(&queued[0], MainEffect::Home(p) if p.unsigned_field("seq") == Some(1)
        && p.text_field("state") == Some("queued")));
    assert!(matches!(&queued[1], MainEffect::Chat { payload, .. }
        if payload.text_field("type") == Some("chat.user_message_queued")));
    let told = main.handle(WebMainCommand::MessageAppended {
        appended: appended(3, ChatRole::User),
        decorated_message: parse(r#"{"message_id":"m1"}"#),
        conversation_summary: Some(Json::object()),
    });
    assert_eq!(told.len(), 3);
    assert!(matches!(&told[0], MainEffect::Chat { foreground_session_id, .. } if foreground_session_id == "main"));
    assert!(matches!(&told[1], MainEffect::Home(p) if p.unsigned_field("seq") == Some(2)
        && p.text_field("state") == Some("idle")));
    assert!(matches!(&told[2], MainEffect::Home(p) if p.unsigned_field("seq") == Some(3)));
    let told = main.handle(WebMainCommand::SessionStream {
        stream: stream(r#"{"type":"turn_started","turn_id":"t"}"#),
        now: "now".to_string(),
    });
    assert_eq!(told.len(), 2);
    assert_eq!(main.live_state("c", "main").active_turn_id(), Some("t"));
    assert_eq!(main.live_state("c", "other").summary_state(), "idle");
    let told = main.handle(WebMainCommand::SessionStream {
        stream: stream(r#"{"delta":"x"}"#),
        now: "now".to_string(),
    });
    assert!(matches!(&told[..], [MainEffect::Chat { payload, .. }]
        if payload.text_field("type") == Some("chat.stream_event")));
    assert!(main
        .handle(WebMainCommand::SetProcessing {
            platform_chat_id: "p".to_string(),
            state: ProcessingState::Typing,
        })
        .is_empty());
    assert_eq!(main.processing_state("p"), ProcessingState::Typing);
    assert_eq!(main.processing_state("q"), ProcessingState::Idle);
    let seen = ConversationSeen {
        last_seen_message_id: "m1".to_string(),
        updated_at: "now".to_string(),
    };
    assert!(main
        .handle(WebMainCommand::UpdateSeen {
            key: "k".to_string(),
            seen: seen.copy(),
        })
        .is_empty());
    assert_eq!(main.seen_state("k").unwrap().last_seen_message_id, "m1");
    let told = main.handle(WebMainCommand::SeenStored {
        conversation_id: "c".to_string(),
        foreground_session_id: "main".to_string(),
        seen,
    });
    assert!(matches!(&told[0], MainEffect::Home(p) if p.unsigned_field("seq") == Some(5)
        && p.text_field("last_seen_at") == Some("now")));
    let told = main.handle(WebMainCommand::SendError { error: error() });
    assert!(matches!(&told[..], [MainEffect::Chat { payload, .. }]
        if payload.text_field("error") == Some("msg")));
    let told = main.handle(WebMainCommand::PublishHome {
        payload: Json::object(),
    });
    assert!(matches!(&told[0], MainEffect::Home(p) if p.unsigned_field("seq") == Some(6)));
    let told = main.handle(WebMainCommand::PublishChat {
        conversation_id: "c".to_string(),
        session_id: "local__agent__foreground__x".to_string(),
        payload: Json::Null,
    });
    assert!(matches!(&told[0], MainEffect::Chat { foreground_session_id, .. } if foreground_session_id == "x"));
}

#[test]
fn session_book_tells_whole_events() {
    let mut book = SessionBook::new(TextMap::new());
    let queued = book.user_message_queued("c", "main", "m1");
    assert!(matches!(&queued[0], BookEffect::Home(p) if p.unsigned_field("seq") == Some(1)
        && p.text_field("state") == Some("queued")));
    assert!(matches!(&queued[1], BookEffect::Chat { key, payload } if key == "c:main"
        && payload.text_field("type") == Some("chat.user_message_queued")
        && payload.text_field("client_message_id") == Some("m1")));
    let again = book.user_message_queued("c", "main", "m1");
    assert_eq!(again.len(), 2);
    assert_eq!(
        book.chat_live_snapshot("c", "main").queued_outbound_messages.len(),
        1
    );
    let told = book.message_appended(&appended(3, ChatRole::User), &parse(r#"{"message_id":"m1"}"#));
    assert!(matches!(&told[0], BookEffect::Chat { key, payload } if key == "c:main"
        && payload.text_field("session_id") == Some("local__agent__foreground__main")
        && payload.text_field("foreground_session_id") == Some("main")));
    assert!(matches!(&told[1], BookEffect::Home(p) if p.unsigned_field("seq") == Some(3)
        && p.text_field("state") == Some("idle")));
    let told = book.session_stream(&stream(r#"{"type":"turn_started","turn_id":"t"}"#), "now");
    assert!(matches!(&told[0], BookEffect::Home(p) if p.text_field("active_turn_id") == Some("t")));
    assert!(matches!(&told[1], BookEffect::Chat { payload, .. }
        if payload.text_field("type") == Some("chat.stream_turn_start")
        && at(payload, &["event", "turn_id"]).as_text() == Some("t")));
    let told = book.session_stream(&stream(r#"{"delta":"x"}"#), "now");
    assert_eq!(told.len(), 1);
    assert_eq!(book.chat_live_snapshot("c", "other").summary_state(), "idle");
    book.set_processing("p", ProcessingState::Typing);
    assert_eq!(book.processing_state("p"), ProcessingState::Typing);
    assert_eq!(book.processing_state("q"), ProcessingState::Idle);
    assert!(book.seen("c", "main").is_none());
    let seen = ConversationSeen {
        last_seen_message_id: "m1".to_string(),
        updated_at: "now".to_string(),
    };
    book.note_seen("c", "main", seen);
    assert_eq!(book.seen("c", "main").unwrap().last_seen_message_id, "m1");
    assert!(book.seen("c", "side").is_none());
    let told = book.publish_conversation_event(Json::object());
    assert!(matches!(&told, BookEffect::Home(p) if p.unsigned_field("seq") == Some(5)));
    assert!(matches!(to_listeners(error_event(&error())), BookEffect::Chat { key, .. } if key == "c:main"));
}

fn error() -> OutgoingError {
    OutgoingError {
        channel_id: "web".to_string(),
        platform_chat_id: "p".to_string(),
        conversation_id: "c".to_string(),
        scope: OutgoingErrorScope::RemoteWorkspace,
        severity: OutgoingErrorSeverity::Warning,
        code: "code".to_string(),
        message: "msg".to_string(),
        detail: None,
        can_continue: true,
        suggested_action: Some("retry".to_string()),
    }
}

#[test]
fn errors_and_events_are_told() {
    let e = single_error_event(&error());
    assert_eq!(e.text_field("scope"), Some("remote_workspace"));
    assert_eq!(at(&e, &["error", "severity"]).as_text(), Some("warning"));
    let e = error_event(&error());
    assert_eq!(e.foreground_session_id, "main");
    assert!(is_null(at(&e.payload, &["detail"])));
    let e = nested_stream_event(&stream(r#"{"type":"turn_completed"}"#));
    assert_eq!(e.payload.text_field("type"), Some("chat.stream_turn_done"));
    assert_eq!(at(&e.payload, &["event", "type"]).as_text(), Some("turn_completed"));
    let e = appended_event(&appended(2, ChatRole::Assistant), &Json::object());
    assert_eq!(e.payload.unsigned_field("message_index"), Some(2));
    let mut delivery = OutgoingDelivery {
        channel_id: "web".to_string(),
        platform_chat_id: "p".to_string(),
        conversation_id: "c".to_string(),
        session_id: None,
        message: None,
        text: "hello".to_string(),
        attachments: vec![],
        options: None,
    };
    assert_eq!(
        delivery_event(&delivery).unwrap().payload.text_field("text"),
        Some("hello")
    );
    delivery.text = " ".to_string();
    assert!(delivery_event(&delivery).is_none());
    let addressed = event_for_subscriber(&parse(r#"{"conversation_id":"own"}"#), "c", "p");
    assert_eq!(addressed.text_field("conversation_id"), Some("own"));
    assert_eq!(addressed.text_field("platform_chat_id"), Some("p"));
    assert!(heartbeat_is_due(30) && !heartbeat_is_due(29));
}

#[test]
fn what_was_seen_never_moves_back() {
    let mut book = WebChannelBook::new(TextMap::new());
    let first = book.mark_seen("c", "msg_5_a", None, None, "t1");
    assert_eq!(first.updated_at, "t1");
    let back = book.mark_seen("c", "msg_3_b", None, None, "t2");
    assert_eq!(back.last_seen_message_id, "msg_5_a");
    let on = book.mark_seen("c", "msg_9_b", None, None, "t3");
    assert_eq!(on.updated_at, "t3");
    assert_eq!(book.seen.get("c").unwrap().last_seen_message_id, "msg_9_b");
    book.set_processing("p", ProcessingState::Typing);
    assert_eq!(book.processing_state("p"), ProcessingState::Typing);
    book.set_processing("p", ProcessingState::Idle);
    assert_eq!(book.processing.len(), 0);
    assert!(book.forget("c", "p"));
    assert!(!book.forget("c", "p"));

    let messages = ConversationMessageSummary {
        message_count: 2,
        last_message_id: Some("msg_9_b".to_string()),
        last_message_time: None,
    };
    let event = turn_completed_event(
        "web",
        &state("c"),
        Some("t"),
        Some(ProgressFeedbackFinalState::Failed),
        &messages,
        &Some(on),
        None,
        None,
        Json::Null,
    )
    .unwrap();
    assert_eq!(event.bool_field("unread"), Some(false));
    assert_eq!(event.text_field("final_state"), Some("failed"));
    let _ = MessageOrder::Same;
}

#[test]
fn requests_find_their_routes() {
    let run = |text: &str| match dispatch_session_request(&request(text), "secret") {
        Dispatch::Run(route) => (route.kind, route.ids),
        other => panic!("not run: {other:?}"),
    };
    let get = "?token=secret HTTP/1.1\r\n\r\n";
    assert_eq!(run(&format!("GET /api/health{get}")).0, RouteKind::Health);
    assert_eq!(
        run(&format!(
            "GET /api/conversations/c/foreground_sessions/s/messages/m{get}"
        )),
        (
            RouteKind::SessionMessageDetail,
            vec!["c".to_string(), "s".to_string(), "m".to_string()]
        )
    );
    assert_eq!(
        run(&format!("DELETE /api/conversations/c/terminals/t{get}")),
        (
            RouteKind::TerminateTerminal,
            vec!["c".to_string(), "t".to_string()]
        )
    );
    assert_eq!(
        run(&format!("PATCH /api/conversations/c{get}")),
        (RouteKind::RenameConversation, vec!["c".to_string()])
    );
    let refused = |d: Dispatch| match d {
        Dispatch::Refuse(e) => (e.status, e.message),
        other => panic!("not refused: {other:?}"),
    };
    assert_eq!(
        refused(dispatch_session_request(
            &request("GET /api/models HTTP/1.1\r\n\r\n"),
            "secret"
        )),
        (401, "unauthorized".to_string())
    );
    assert_eq!(
        refused(dispatch_session_request(
            &request("GET /api/ws/home HTTP/1.1\r\nUpgrade: WebSocket\r\n\r\n"),
            "secret"
        ))
        .0,
        426
    );
    assert_eq!(
        refused(dispatch_session_request(
            &request(&format!("GET /api/conversations/c/messages{get}")),
            "secret"
        )),
        (404, "not_found".to_string())
    );
    assert!(matches!(
        dispatch_session_request(&request("OPTIONS * HTTP/1.1\r\n\r\n"), "secret"),
        Dispatch::NoContent
    ));

    let bearer = " HTTP/1.1\r\nAuthorization: Bearer secret\r\n\r\n";
    let single = |text: &str| dispatch_request(&request(text), "secret");
    assert!(matches!(
        single(&format!("GET /api/conversations/c/messages/m{bearer}")),
        Dispatch::Run(route) if route.kind == RouteKind::MessageDetail && route.ids == vec!["c", "m"]
    ));
    assert!(matches!(
        single(&format!("POST /api/conversations/c/foreground_sessions/main/messages{bearer}")),
        Dispatch::Run(route) if route.kind == RouteKind::PostSessionMessage
    ));
    assert_eq!(refused(single(&format!("GET /other{bearer}"))).0, 404);
    assert_eq!(refused(single(&format!("GET /api/models{get}"))).0, 401);
    assert_eq!(refused(single(&format!("GET /api/health{bearer}"))).0, 404);
}

#[test]
fn connections_find_their_routes() {
    let r = request("GET /api/ws/home?token=s HTTP/1.1\r\n\r\n");
    assert!(matches!(session_stream_route(&r, "s"), StreamRoute::Home));
    assert!(matches!(session_stream_route(&r, "x"), StreamRoute::Refuse(e) if e.status == 401));
    let r = request("GET /api/conversations/c/foreground_sessions/f/ws?token=s HTTP/1.1\r\n\r\n");
    assert!(
        matches!(session_stream_route(&r, "s"), StreamRoute::Session(c, f) if c == "c" && f == "f")
    );
    let r = request(
        "GET /api/conversations/c/terminals/t/stream?token=s HTTP/1.1\r\nSec-WebSocket-Key: k\r\n\r\n",
    );
    assert!(matches!(stream_route(&r, "s"), StreamRoute::Terminal(c, t) if c == "c" && t == "t"));
    let r = request("GET /api/conversations/c/foreground/ws?token=s HTTP/1.1\r\n\r\n");
    assert!(matches!(stream_route(&r, "s"), StreamRoute::Refuse(e) if e.status == 400));
}

#[test]
fn requests_are_read() {
    let r = build_request_from_text(
        "POST /api/a%20b/c?x=1%2B&y HTTP/1.1\r\nHost: h\r\nContent-Length: 3\r\n\r\n",
        b"abcdef".to_vec(),
    );
    assert_eq!(r.method, "POST");
    assert_eq!(r.path, "/api/a%20b/c");
    assert_eq!(r.query.get("x").map(|t| t.as_str()), Some("1+"));
    assert_eq!(r.query.get("y").map(|t| t.as_str()), Some(""));
    assert_eq!(r.body, b"abc");
    assert!(!authorized(&r, "s") && !authorized_by_header(&r, "s"));
    assert_eq!(split_path("//a//b/"), vec!["a", "b"]);
    assert_eq!(page_window(5, usize::MAX, 9), (5, 9));
    assert_eq!(status_reason(202), "Accepted");
    assert!(response_head(200, "OK", "text/plain", 5)
        .starts_with("HTTP/1.1 200 OK\r\nContent-Type: text/plain\r\nContent-Length: 5\r\n"));
    assert!(!query_bool(&r.query, "x"));
}

#[test]
fn percent_notation_is_read_back() {
    let text = "a b/ü+%";
    let written = percent_encode_query_value(text);
    assert_eq!(written, "a%20b%2F%C3%BC%2B%25");
    assert_eq!(percent_decode(&written).as_deref(), Some(text));
    assert!(can_be_cut(&written));
    assert_eq!(percent_decode_lenient(&written), text);
    assert_eq!(percent_decode_lenient("a+b%zz%4"), "a b%zz%4");
    assert!(!can_be_cut("%aü"));
    assert!(target_can_be_cut("/a?b=%20"));
    assert!(!target_can_be_cut("/a?b=%aü"));
    assert!(percent_decode("%4").is_none());
    assert_eq!(parse_query("a=1&a=2&&b").get("a").map(|t| t.as_str()), Some("2"));
}

#[test]
fn sessions_and_conversations_are_named() {
    let mut m = state("c");
    name_conversation(&mut m, Some("  ".to_string()));
    assert_eq!(m.nickname, "c");
    name_conversation(&mut m, Some(" n ".to_string()));
    assert_eq!(m.nickname, " n ");
    rename_conversation(&mut m, None);
    assert_eq!(m.nickname, "c");
    set_session_nickname(&mut m, "b", Some("B".to_string()));
    set_session_nickname(&mut m, "a", Some("A".to_string()));
    set_session_nickname(&mut m, "x", Some("X".to_string()));
    set_session_nickname(&mut m, "x", None);
    assert_eq!(foreground_session_ids(&m), vec!["a", "b", "main"]);
    let none = stellaclaw::web::history::message_summary(&vec![]);
    let live = ChatLiveState::new();
    let a = foreground_session_summary(&m, "a", &none, None, &live);
    assert_eq!(a.text_field("nickname"), Some("A"));
    assert_eq!(
        a.text_field("session_id"),
        Some("local__agent__foreground__a")
    );
    let main = foreground_session_summary(&m, "main", &none, None, &live);
    assert_eq!(main.text_field("nickname"), Some("c"));
    assert_eq!(main.bool_field("is_main"), Some(true));
    assert_eq!(foreground_session_storage_id("x"), "local__agent__foreground__x");
    assert_eq!(
        foreground_route_id_from_storage_id("local__agent__foreground__x").as_deref(),
        Some("x")
    );
    assert_eq!(created_session_id(&None, &Some("q".to_string())), "q");
    assert_eq!(created_session_id(&Some("odd".to_string()), &None), "odd");
    assert_eq!(delete_session_reply("c", "main").unwrap_err().status, 400);
    assert_eq!(delete_session_reply("c", "a").unwrap().status, 200);
    let (session, event, _) = mark_seen(
        "c",
        &None,
        &ConversationSeen {
            last_seen_message_id: "m".to_string(),
            updated_at: "t".to_string(),
        },
    );
    assert_eq!(session, "main");
    assert_eq!(at(&event, &["seen", "updated_at"]).as_text(), Some("t"));
    assert!(validate_conversation_id("ok") && !validate_conversation_id("a/../b"));
    assert_eq!(check_conversation_id(" ").unwrap_err().status, 400);
    assert_eq!(check_session("other").unwrap_err().status, 404);
    assert_eq!(own_conversation(None, "web-main").unwrap_err().status, 404);
    assert!(own_conversation(Some(state("c")), "web-main").is_ok());
    assert!(own_conversation(Some(state("c")), "other").is_err());
    assert_eq!(
        foreground_message_index(&state("c"), "c", None, None, 3),
        Some(2)
    );
    assert_eq!(
        foreground_message_index(&state("c"), "c", Some("x"), None, 3),
        None
    );
}

#[test]
fn lists_are_sorted_and_cut_into_pages() {
    let list: Vec<Json> = ["b", "a", "c"]
        .iter()
        .map(|id| Json::Object(vec![("conversation_id".to_string(), Json::text(id))]))
        .collect();
    let sorted = sort_by_field(copy_array(&list), "conversation_id");
    let mut query: TextMap<String> = TextMap::new();
    query.insert("offset", "1".to_string());
    query.insert("limit", "9999".to_string());
    let reply = list_conversations("web", &query, 80, list);
    assert_eq!(reply.payload.unsigned_field("limit"), Some(200));
    assert_eq!(reply.payload.unsigned_field("total"), Some(3));
    assert_eq!(
        at(&reply.payload, &["conversations", "0", "conversation_id"]).as_text(),
        Some("b")
    );
    let reply = list_messages("c", "main", &TextMap::new(), &sorted);
    assert_eq!(reply.payload.unsigned_field("limit"), Some(80));
    assert_eq!(
        message_detail("c", "main", "zz", &sorted).unwrap_err().message,
        "message_not_found"
    );
    let snapshot = home_snapshot(4, sorted, "now");
    assert_eq!(snapshot.unsigned_field("seq"), Some(4));
    let chat = chat_snapshot(
        "c",
        "main",
        &vec![parse(r#"{"id":"m","index":7}"#)],
        &ChatLiveState::new(),
    );
    assert_eq!(chat.text_field("last_committed_message_id"), Some("m"));
    assert_eq!(chat.unsigned_field("last_committed_message_index"), Some(7));
}

#[test]
fn messages_to_a_conversation_carry_their_command() {
    let request = |text: &str| stellaclaw::web::selection::SendMessageRequest {
        remote_message_id: None,
        user_name: None,
        message_time: None,
        text: Some(text.to_string()),
        selection_references: None,
        files: None,
    };
    let m = incoming_message(request(" /status "), "r".to_string(), vec![], "now".to_string())
        .unwrap();
    assert!(matches!(m.control, Some(ConversationControl::ShowStatus)));
    assert_eq!(m.text.as_deref(), Some(" /status "));
    assert_eq!(m.message_time.as_deref(), Some("now"));
    let e = incoming_message(request(""), "r".to_string(), vec![], "now".to_string()).unwrap_err();
    assert_eq!(e.status, 400);
    let file = FileItem {
        uri: "u".to_string(),
        name: None,
        media_type: None,
        width: None,
        height: None,
        state: None,
    };
    assert!(incoming_message(request(""), "r".to_string(), vec![file], "n".to_string()).is_ok());
}

#[test]
fn workspace_requests_keep_their_bounds() {
    let mut query: TextMap<String> = TextMap::new();
    assert!(matches!(
        conversation_workspace_request(&query),
        WorkspaceRequest::List { path: None, limit: Some(200) }
    ));
    assert_eq!(
        conversation_workspace_file_request(&query).unwrap_err().message,
        "workspace file path is required"
    );
    assert_eq!(read_file_request(&query).unwrap_err().message, "path is required");
    query.insert("path", "a.PNG".to_string());
    query.insert("limit", "5000".to_string());
    query.insert("limit_bytes", "0".to_string());
    assert!(matches!(
        conversation_workspace_request(&query),
        WorkspaceRequest::List { limit: Some(1000), .. }
    ));
    assert!(matches!(
        conversation_workspace_file_request(&query).unwrap(),
        WorkspaceRequest::ReadFile { offset: Some(0), limit_bytes: Some(1), .. }
    ));
    query.insert("full", "yes".to_string());
    assert!(matches!(
        conversation_workspace_file_request(&query).unwrap(),
        WorkspaceRequest::ReadFile { limit_bytes: None, .. }
    ));
    assert!(is_image_workspace_path("x.heic") && !is_image_workspace_path("x.txt"));
    let upload = upload_archive_request(&query, b"hello");
    assert!(
        matches!(&upload, WorkspaceRequest::UploadArchive { data, dir_path, .. } if data == "aGVsbG8=" && dir_path == "a.PNG")
    );
    let back = downloaded_archive(&WorkspaceResponse::ArchiveDownloaded {
        encoding: WorkspaceFileEncoding::Base64,
        data: "aGVsbG8=".to_string(),
    });
    assert_eq!(back.unwrap(), b"hello");
    assert_eq!(
        downloaded_archive(&WorkspaceResponse::Other).unwrap_err().status,
        500
    );
    assert_eq!(wait_error(WaitFailure::Disconnected).status, 503);
    assert_eq!(
        service_wait_error("workspace", WaitFailure::TimedOut).message,
        "workspace request timed out"
    );
}

#[test]
fn answers_of_workspaces_are_taken_or_refused() {
    let error = workspace_answer(WorkspaceResponse::Error {
        message: "no such path".to_string(),
    })
    .unwrap_err();
    assert_eq!((error.status, error.message.as_str()), (400, "no such path"));
    assert!(workspace_answer(WorkspaceResponse::Other).is_ok());
}

#[test]
fn session_states_are_kept() {
    let key = ForegroundSessionKey::new("c", "main");
    let mut state = WebChannelMainState::new();
    assert_eq!(state.next_home_seq(), 1);
    assert_eq!(state.home_seq(), 1);
    assert!(state.foreground_state(&key).is_none());
    let live = state.foreground_state_mut(ForegroundSessionKey::new("c", "main"));
    live.queue_outbound(QueuedOutboundMessage {
        client_message_id: "m".to_string(),
        conversation_id: "c".to_string(),
        foreground_session_id: "main".to_string(),
    });
    live.set_turn("t", None);
    assert_eq!(state.foreground_state(&key).unwrap().queued_outbound.len(), 1);
    state.remove_foreground_state(&key);
    assert!(state.foreground_state(&key).is_none());

    let mut live = ForegroundLiveState::new();
    let message = appended(0, ChatRole::Assistant).message;
    live.append_provisional_assistant("t", "m", message);
    live.clear_provisional_assistant(Some("other"));
    assert!(live.provisional_assistant.is_some());
    let result = |text: &str| ToolResultItem {
        tool_call_id: "c1".to_string(),
        tool_name: "n".to_string(),
        text: text.to_string(),
        structured: None,
        files: vec![],
    };
    live.push_tool_result("t", result("a"), true);
    live.push_tool_result("t", result("b"), false);
    assert_eq!(live.tool_results.len(), 1);
    assert!(live.tool_results[0].committed);
    assert_eq!(live.tool_results[0].tool_result.text, "b");
    live.commit_message(&appended(0, ChatRole::Assistant).message, 9);
    assert!(live.provisional_assistant.is_none());
    assert_eq!(live.last_committed_message_id.as_deref(), Some("m"));
    assert_eq!(
        HomeForegroundSessionState::from(AgentSessionState::Stopping),
        HomeForegroundSessionState::Running
    );
    assert_eq!(HomeForegroundSessionState::from(AgentSessionState::Crashed).name(), "failed");
    assert_eq!(
        HomeEvent::ConversationDeleted {
            seq: 1,
            conversation_id: "c".to_string()
        }
        .wire_type(),
        "home.conversation_deleted"
    );
}
