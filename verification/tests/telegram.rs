use stellaclaw::channels::{ConversationControl, OutgoingOption, OutgoingOptions};
use stellaclaw::chat::{FileItem, FileState};
use stellaclaw::config::SandboxMode;
use stellaclaw::json::Json;
use stellaclaw::progress::{
    progress_after_edit, telegram_progress_text, update_progress_feedback,
    OutgoingProgressFeedback, ProgressFeedbackFinalState, ProgressMessage, ProgressStep,
    TurnProgress, TurnProgressPhase, TurnProgressPlan, TurnProgressPlanItem,
    TurnProgressPlanItemStatus,
};
use stellaclaw::telegram::command::parse_conversation_control;
use stellaclaw::telegram::flow::{
    api_failure, bootstrap_first_private_admin, incoming_from_callback, incoming_from_message, missing_file, plan_caption,
    poll_payload, progress_edit_payload, progress_send_payload, receive_message,
    request_timeout_secs, retry_pause_ms, send_text_payloads, stored_file,
};
use stellaclaw::telegram::markdown::parse_markdown_to_rich_document;
use stellaclaw::telegram::message::{
    collect_attachment_descriptors, next_offset, text_of_callback, text_of_message, TelegramChat,
    TelegramCallbackQuery, TelegramMedia, TelegramMessage, TelegramPhotoSize, TelegramUser,
};
use stellaclaw::telegram::payload::{build_send_text_payload, plan_delivery};
use stellaclaw::telegram::render::{
    ensure_block_break_text,
    render_rich_document_to_telegram_entities, telegram_text_len, TelegramMessageEntity,
    TelegramRenderedText,
};
use stellaclaw::telegram::security::{AuthorizationState, SecurityState};
use stellaclaw::telegram::split::render_markdown_chunks_to_telegram_entities;

fn at<'a>(value: &'a Json, path: &[&str]) -> &'a Json {
    let mut v = value;
    for key in path {
        v = match v {
            Json::Array(list) => &list[key.parse::<usize>().unwrap()],
            other => other.get(key).unwrap(),
        };
    }
    v
}

fn text_at<'a>(value: &'a Json, path: &[&str]) -> &'a str {
    at(value, path).as_text().unwrap()
}

fn message(chat_id: i64, chat_type: &str, user_id: i64, text: &str) -> TelegramMessage {
    TelegramMessage {
        message_id: 1,
        date: None,
        chat: TelegramChat {
            id: chat_id,
            chat_type: chat_type.to_string(),
            title: None,
        },
        from: Some(TelegramUser {
            id: user_id,
            first_name: "Alice".to_string(),
            last_name: None,
            username: Some("alice".to_string()),
        }),
        text: Some(text.to_string()),
        caption: None,
        photo: None,
        document: None,
        audio: None,
        voice: None,
        video: None,
        animation: None,
    }
}

#[test]
fn parses_model_control_commands() {
    assert!(matches!(
        parse_conversation_control("/model"),
        Some(ConversationControl::ShowModel)
    ));
    assert!(matches!(
        parse_conversation_control("/model gpt54"),
        Some(ConversationControl::SwitchModel { model_name }) if model_name == "gpt54"
    ));
    assert!(matches!(
        parse_conversation_control("/model@stellaclaw_bot gpt54"),
        Some(ConversationControl::SwitchModel { model_name }) if model_name == "gpt54"
    ));
    assert!(matches!(
        parse_conversation_control("/remote"),
        Some(ConversationControl::ShowRemote)
    ));
    assert!(matches!(
        parse_conversation_control("/remote demo-host ~/repo"),
        Some(ConversationControl::SetRemote { host, path }) if host == "demo-host" && path == "~/repo"
    ));
    assert!(matches!(
        parse_conversation_control("/remote off"),
        Some(ConversationControl::DisableRemote)
    ));
    assert!(matches!(
        parse_conversation_control("/status"),
        Some(ConversationControl::ShowStatus)
    ));
    assert!(matches!(
        parse_conversation_control("/compact"),
        Some(ConversationControl::Compact)
    ));
    assert!(matches!(
        parse_conversation_control("/reasoning"),
        Some(ConversationControl::ShowReasoning)
    ));
    assert!(matches!(
        parse_conversation_control("/reasoning high"),
        Some(ConversationControl::SetReasoning { effort: Some(effort) }) if effort == "high"
    ));
    assert!(matches!(
        parse_conversation_control("/reasoning default"),
        Some(ConversationControl::SetReasoning { effort: None })
    ));
    assert!(matches!(
        parse_conversation_control("/sandbox"),
        Some(ConversationControl::ShowSandbox)
    ));
    assert!(matches!(
        parse_conversation_control("/sandbox bubblewrap"),
        Some(ConversationControl::SetSandbox {
            mode: Some(SandboxMode::Bubblewrap)
        })
    ));
    assert!(matches!(
        parse_conversation_control("/sandbox subprocess"),
        Some(ConversationControl::SetSandbox {
            mode: Some(SandboxMode::Subprocess)
        })
    ));
    assert!(matches!(
        parse_conversation_control("/sandbox default"),
        Some(ConversationControl::SetSandbox { mode: None })
    ));
}

#[test]
fn wrong_commands_are_told_apart_from_text() {
    assert!(parse_conversation_control("hello").is_none());
    assert!(parse_conversation_control("/continue now").is_none());
    assert!(matches!(
        parse_conversation_control("  /continue  "),
        Some(ConversationControl::Continue)
    ));
    assert!(matches!(
        parse_conversation_control("/remote host"),
        Some(ConversationControl::InvalidRemote { reason }) if reason == "remote 命令缺少 host 或 path。"
    ));
    assert!(matches!(
        parse_conversation_control("/sandbox moon"),
        Some(ConversationControl::InvalidSandbox { reason }) if reason == "未知 sandbox 模式 `moon`。"
    ));
    assert!(matches!(
        parse_conversation_control("/reasoning Wild"),
        Some(ConversationControl::InvalidReasoning { reason }) if reason == "未知 reasoning effort `Wild`。"
    ));
}

#[test]
fn first_private_user_bootstraps_as_admin_in_security_state() {
    let mut security = SecurityState::new();
    let message = message(42, "private", 42, "/start");

    let bootstrapped = security.bootstrap_first_private_admin_in_memory(&message, 42);

    assert!(bootstrapped);
    assert_eq!(security.effective_admin_user_ids(), vec![42]);
    assert!(security.is_admin_private_chat(&message, 42));
}

#[test]
fn second_private_user_waits_for_approval() {
    let mut security = SecurityState::new();
    let first = message(42, "private", 42, "/start");
    let greeting = bootstrap_first_private_admin(&mut security, &first, 42).unwrap();
    assert_eq!(greeting.chat_id.as_deref(), Some("42"));
    assert_eq!(
        greeting.text,
        "已将你注册为此 Telegram channel 的管理员。"
    );
    let r = receive_message(&mut security, "telegram-main", &first, 42, "hello");
    assert!(r.allowed && !r.save);
    assert!(r.notices.is_empty());

    let second = message(7, "private", 7, "hi");
    assert!(bootstrap_first_private_admin(&mut security, &second, 7).is_none());
    let r = receive_message(&mut security, "telegram-main", &second, 7, "hi");
    assert!(!r.allowed);
    assert_eq!(r.notices.len(), 2);
    assert_eq!(r.notices[0].chat_id.as_deref(), Some("7"));
    assert!(r.notices[1].chat_id.is_none());
    assert_eq!(
        r.notices[1].text,
        "待审批 chat: 7\n标题: \n用户: alice\n最近消息: hi"
    );

    let r = receive_message(
        &mut security,
        "telegram-main",
        &first,
        42,
        "/admin_chat_approve 7",
    );
    assert!(!r.allowed);
    assert_eq!(r.notices[0].chat_id.as_deref(), Some("7"));
    assert_eq!(r.notices[1].text, "已批准 chat 7");
    let r = receive_message(&mut security, "telegram-main", &second, 7, "hi");
    assert!(r.allowed && r.save && r.notices.is_empty());

    let r = receive_message(
        &mut security,
        "telegram-main",
        &first,
        42,
        "/admin_chat_list",
    );
    assert_eq!(
        r.notices[0].text,
        "channel `telegram-main` 当前 chat 审批状态:\n- 42: Approved  alice\n- 7: Approved  alice"
    );
    let r = receive_message(
        &mut security,
        "telegram-main",
        &first,
        42,
        "/admin_chat_reject 7",
    );
    assert!(!r.allowed);
    let r = receive_message(&mut security, "telegram-main", &second, 7, "hi");
    assert!(!r.allowed);
    assert_eq!(r.notices[0].text, "当前 chat 未获批准，无法使用。");
    assert_eq!(
        security.chats.get("7").unwrap().state,
        AuthorizationState::Rejected
    );
}

#[test]
fn an_administrator_of_a_group_does_not_open_the_group() {
    let mut security = SecurityState::new().with_admins(&vec![9, 3, 9]);
    assert_eq!(security.effective_admin_user_ids(), vec![3, 9]);
    let group = message(-100, "group", 9, "hello");
    let r = receive_message(&mut security, "telegram-main", &group, 9, "hello");
    assert!(!r.allowed);
    assert_eq!(r.notices[0].chat_id.as_deref(), Some("-100"));
}

#[test]
fn renders_basic_entities_for_telegram() {
    let document = parse_markdown_to_rich_document(
        "# Title\n\n**bold** and *italic* with [link](https://example.com).\n\n```rust\nlet x = 1;\n```",
    );
    let rendered = render_rich_document_to_telegram_entities(&document);

    assert!(rendered.text.contains("Title"));
    assert!(rendered.text.contains("bold"));
    assert!(rendered.text.contains("italic"));
    assert!(rendered.text.contains("let x = 1;"));
    assert!(rendered.entities.iter().any(|entity| entity.kind == "bold"));
    assert!(rendered
        .entities
        .iter()
        .any(|entity| entity.kind == "italic"));
    assert!(rendered
        .entities
        .iter()
        .any(|entity| entity.kind == "text_link"));
    assert!(rendered
        .entities
        .iter()
        .any(|entity| entity.kind == "pre" && entity.language.as_deref() == Some("rust")));
}

#[test]
fn renders_blockquote_entities_for_telegram() {
    let document = parse_markdown_to_rich_document("> quoted line\n>\n> second line");
    let rendered = render_rich_document_to_telegram_entities(&document);

    assert!(rendered.text.contains("quoted line"));
    assert!(rendered.text.contains("second line"));
    assert!(rendered
        .entities
        .iter()
        .any(|entity| entity.kind == "blockquote"));
}

#[test]
fn rendered_entities_lie_inside_the_text_and_in_order() {
    let document = parse_markdown_to_rich_document(
        "# 标题 😀\n\n- **one**\n- *two* `code`\n\n1. first\n2. second\n\n| a | b |\n|---|---|\n| 1 | 22 |\n\n> quote **bold**\n\n~~gone~~ [l](https://e.org)",
    );
    let rendered = render_rich_document_to_telegram_entities(&document);
    let length = telegram_text_len(&rendered.text);
    let mut before = 0;
    assert!(!rendered.entities.is_empty());
    for entity in &rendered.entities {
        assert!(entity.length > 0);
        assert!(entity.offset + entity.length <= length);
        assert!(entity.offset >= before);
        before = entity.offset;
    }
    assert!(rendered.text.contains("a | b"));
    assert!(rendered.text.contains("1. first"));
}

#[test]
fn build_send_text_payload_includes_entities_and_inline_keyboard() {
    let payload = build_send_text_payload(
        "123",
        &TelegramRenderedText {
            text: "hello".to_string(),
            entities: vec![TelegramMessageEntity {
                kind: "bold".to_string(),
                offset: 0,
                length: 5,
                url: None,
                language: None,
            }],
        },
        Some(&OutgoingOptions {
            prompt: "Choose".to_string(),
            options: vec![
                OutgoingOption {
                    label: "One".to_string(),
                    value: "/one".to_string(),
                },
                OutgoingOption {
                    label: "Two".to_string(),
                    value: "/two".to_string(),
                },
                OutgoingOption {
                    label: "Three".to_string(),
                    value: "/three".to_string(),
                },
            ],
        }),
    );

    assert_eq!(text_at(&payload, &["chat_id"]), "123");
    assert_eq!(text_at(&payload, &["text"]), "hello");
    assert_eq!(text_at(&payload, &["entities", "0", "type"]), "bold");
    let rows = at(&payload, &["reply_markup", "inline_keyboard"]);
    assert!(matches!(at(rows, &["0"]), Json::Array(row) if row.len() == 2));
    assert!(matches!(at(rows, &["1"]), Json::Array(row) if row.len() == 1));
    assert_eq!(text_at(rows, &["0", "0", "text"]), "One");
    assert_eq!(text_at(rows, &["0", "0", "callback_data"]), "/one");
}

#[test]
fn splits_long_markdown_messages_into_multiple_chunks() {
    let input = format!(
        "{}\n\n{}\n\n{}",
        "a".repeat(2200),
        "b".repeat(2200),
        "c".repeat(2200)
    );
    let chunks = render_markdown_chunks_to_telegram_entities(&input, 4096);
    assert!(chunks.len() >= 2);
    assert!(chunks
        .iter()
        .all(|chunk| telegram_text_len(&chunk.text) <= 4096));
}

#[test]
fn splits_large_code_block_into_multiple_pre_blocks() {
    let input = format!("```rust\n{}\n```", "let x = 42;\n".repeat(300));
    let chunks = render_markdown_chunks_to_telegram_entities(&input, 1024);

    assert!(chunks.len() >= 2);
    assert!(chunks
        .iter()
        .all(|chunk| telegram_text_len(&chunk.text) <= 1024));
    assert!(chunks
        .iter()
        .all(|chunk| chunk.entities.iter().any(|entity| entity.kind == "pre")));
}

#[test]
fn a_split_text_loses_no_words() {
    let words = "alpha beta gamma delta ".repeat(60);
    let chunks = render_markdown_chunks_to_telegram_entities(&words, 100);
    assert!(chunks.len() > 1);
    let joined: Vec<String> = chunks
        .iter()
        .flat_map(|c| c.text.split_whitespace().map(|w| w.to_string()).collect::<Vec<_>>())
        .collect();
    assert_eq!(joined, words.split_whitespace().collect::<Vec<_>>());
}

#[test]
fn text_is_sent_in_pieces_and_the_last_carries_the_options() {
    let options = OutgoingOptions {
        prompt: "Choose".to_string(),
        options: vec![OutgoingOption {
            label: "One".to_string(),
            value: "/one".to_string(),
        }],
    };
    let text = format!("{}\n\n{}", "a".repeat(3000), "b".repeat(3000));
    let payloads = send_text_payloads("5", &text, Some(&options));
    assert_eq!(payloads.len(), 2);
    assert!(payloads[0].get("reply_markup").is_none());
    assert!(payloads[1].get("reply_markup").is_some());
    assert_eq!(text_at(&payloads[0], &["chat_id"]), "5");

    let short = progress_send_payload("5", "**go**");
    assert_eq!(text_at(&short, &["text"]), "go");
    let edit = progress_edit_payload("5", 8, "**go**");
    assert_eq!(at(&edit, &["message_id"]).as_signed(), Some(8));
    assert_eq!(text_at(&edit, &["entities", "0", "type"]), "bold");
}

#[test]
fn a_long_caption_goes_on_in_messages() {
    let plan = plan_caption("5", Some(&"word ".repeat(400)));
    assert!(telegram_text_len(&plan.caption.unwrap().text) <= 1024);
    assert!(!plan.rest.is_empty());
    let none = plan_caption("5", Some("   "));
    assert!(none.caption.is_none() && none.rest.is_empty());
    assert!(plan_caption("5", None).caption.is_none());
}

#[test]
fn a_delivery_shows_its_text_once() {
    let plan = plan_delivery("own", Some("message"), None, 0);
    assert_eq!(plan.text, "own");
    assert!(plan.send_text);
    let plan = plan_delivery("  ", Some("message"), None, 2);
    assert_eq!(plan.text, "message");
    assert!(!plan.send_text && plan.caption_first);
    let plan = plan_delivery("", None, Some("prompt"), 1);
    assert!(plan.send_text && !plan.caption_first);
}

#[test]
fn polls_and_pauses_have_their_bounds() {
    let p = poll_payload(-3, 30);
    assert_eq!(at(&p, &["offset"]).as_signed(), Some(-3));
    assert_eq!(text_at(&p, &["allowed_updates", "1"]), "callback_query");
    assert_eq!(request_timeout_secs(3), 30);
    assert_eq!(request_timeout_secs(50), 65);
    assert_eq!(request_timeout_secs(u64::MAX), u64::MAX);
    assert_eq!(retry_pause_ms(250), 1000);
    assert_eq!(retry_pause_ms(2500), 2500);
    assert_eq!(next_offset(i64::MAX), i64::MAX);
    assert_eq!(
        api_failure("sendMessage", &None),
        "telegram API sendMessage failed: unknown"
    );
}

#[test]
fn updates_become_messages_for_a_conversation() {
    let mut m = message(42, "private", 42, "");
    m.text = None;
    m.caption = Some("look".to_string());
    m.date = Some(1_700_000_000);
    m.message_id = 77;
    let text = text_of_message(&m);
    assert_eq!(text, "look");
    let incoming = incoming_from_message(&m, text, Vec::new()).unwrap();
    assert_eq!(incoming.remote_message_id, "77");
    assert_eq!(incoming.user_name.as_deref(), Some("alice"));
    assert_eq!(
        incoming.message_time.as_deref(),
        Some("2023-11-14T22:13:20Z")
    );
    assert_eq!(incoming.text.as_deref(), Some("look"));
    assert!(incoming_from_message(&m, "  ".to_string(), Vec::new()).is_none());

    let query = TelegramCallbackQuery {
        id: "q1".to_string(),
        from: TelegramUser {
            id: 1,
            first_name: "Bo".to_string(),
            last_name: Some("Li".to_string()),
            username: None,
        },
        message: None,
        data: Some(" /status ".to_string()),
    };
    let text = text_of_callback(&query);
    let incoming = incoming_from_callback(&query, &m, text, Vec::new()).unwrap();
    assert_eq!(incoming.remote_message_id, "callback:q1");
    assert_eq!(incoming.user_name.as_deref(), Some("Bo Li"));
    assert!(incoming.text.is_none());
    assert!(matches!(
        incoming.control,
        Some(ConversationControl::ShowStatus)
    ));
}

#[test]
fn attachments_get_names_and_types() {
    let mut m = message(42, "private", 42, "x");
    m.photo = Some(vec![
        TelegramPhotoSize {
            file_id: "small".to_string(),
            file_unique_id: "s".to_string(),
        },
        TelegramPhotoSize {
            file_id: "large".to_string(),
            file_unique_id: "l".to_string(),
        },
    ]);
    m.document = Some(TelegramMedia {
        file_id: "d".to_string(),
        file_unique_id: "u".to_string(),
        file_name: Some("a/b:c.pdf".to_string()),
        mime_type: Some("application/pdf".to_string()),
    });
    let list = collect_attachment_descriptors(&m);
    assert_eq!(list.len(), 2);
    assert_eq!(list[0].file_id, "large");
    assert_eq!(list[0].file_name(), "telegram-image-l.jpg");
    assert_eq!(list[1].file_name(), "a_b_c.pdf");

    let stored = stored_file("/tmp/in/a.pdf", &None);
    assert_eq!(stored.uri, "file:///tmp/in/a.pdf");
    assert_eq!(stored.name.as_deref(), Some("a.pdf"));
    assert_eq!(stored.media_type.as_deref(), Some("application/pdf"));
    let missing: FileItem = missing_file("/tmp/in/a.pdf", &None, "gone".to_string());
    assert!(matches!(missing.state, Some(FileState::Crashed { reason }) if reason == "gone"));
    assert!(missing.media_type.is_none());
}

fn feedback(activity: &str, important: bool, last: Option<ProgressFeedbackFinalState>) -> OutgoingProgressFeedback {
    OutgoingProgressFeedback {
        channel_id: "telegram-main".to_string(),
        platform_chat_id: "42".to_string(),
        turn_id: "turn-1".to_string(),
        progress: TurnProgress {
            phase: TurnProgressPhase::Working,
            model: "m".to_string(),
            activity: activity.to_string(),
            hint: None,
            plan: Some(TurnProgressPlan {
                explanation: None,
                items: vec![TurnProgressPlanItem {
                    step: "look".to_string(),
                    status: TurnProgressPlanItemStatus::Completed,
                }],
            }),
            error: None,
        },
        final_state: last,
        important,
    }
}

#[test]
fn progress_is_shown_once_a_second_and_at_the_end() {
    let first = feedback("reading", false, None);
    let text = match update_progress_feedback(&first, None, 1000) {
        ProgressStep::Send { text, keep } => {
            assert!(keep);
            text
        }
        _ => panic!("the first progress is sent"),
    };
    assert!(text.contains("reading"));
    let shown = ProgressMessage {
        message_id: 5,
        last_text: telegram_progress_text(&first.progress),
        last_update_ms: 1000,
        started_ms: 1000,
    };
    let second = feedback("writing", false, None);
    assert!(matches!(
        update_progress_feedback(&second, Some(&shown), 1500),
        ProgressStep::Skip
    ));
    assert!(matches!(
        update_progress_feedback(&second, Some(&shown), 2500),
        ProgressStep::Edit { message_id: 5, last: false, .. }
    ));
    let last = feedback("done", false, Some(ProgressFeedbackFinalState::Failed));
    assert!(!matches!(
        update_progress_feedback(&last, Some(&shown), 1001),
        ProgressStep::Skip
    ));
    let _ = progress_after_edit;
}

#[test]
fn blocks_are_set_apart_once() {
    let cases = [
        ("", true, ""),
        ("a", true, "a\n\n"),
        ("a\n", true, "a\n\n"),
        ("a\n\n", true, "a\n\n"),
        ("", false, ""),
        ("a", false, "a\n"),
        ("a\n", false, "a\n"),
    ];
    for (before, due, after) in cases {
        let mut text = before.to_string();
        let mut need = due;
        ensure_block_break_text(&mut text, &mut need);
        assert_eq!(text, after);
        assert!(!need);
        ensure_block_break_text(&mut text, &mut need);
        assert_eq!(text, after);
        assert!(!need);
    }
}

#[test]
fn no_entity_is_empty() {
    let pieces = render_markdown_chunks_to_telegram_entities(
        "# Title\n\n** ** *x* `c` [l](http://e) ~~s~~\n\n> q\n\n```rs\nfn\n```\n\n```\n\n```",
        4096,
    );
    assert!(pieces.iter().any(|piece| !piece.entities.is_empty()));
    for piece in pieces {
        assert!(piece.entities.iter().all(|entity| entity.length > 0));
    }
}
