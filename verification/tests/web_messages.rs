use stellaclaw::cache::{CachedImagePreview, CachedThumbnail};
use stellaclaw::channels::{OutgoingAttachment, OutgoingAttachmentKind};
use stellaclaw::chat::{
    ChatMessage, ChatMessageItem, ChatRole, ContextItem, FileItem, ReasoningItem,
    SelectionLocator, SelectionReferenceItem, TokenUsage, ToolCallItem, ToolResultItem,
};
use stellaclaw::json::{Json, JsonNumber};
use stellaclaw::text_map::TextMap;
use stellaclaw::web::attachments::{
    attachment_candidate_paths, attachment_workspace_path,
    extract_attachment_references_with_markers, infer_outgoing_attachment_kind,
    is_shared_attachment_path, resolve_outgoing_attachment, strip_attachment_tags,
    CanonicalPaths, FileFacts, PathFacts, WebAttachmentRoots,
};
use stellaclaw::web::files::{
    extension_for_media_type, infer_media_type_from_path_text, materialize_web_data_file, materialize_web_file_items, IncomingFile,
    parse_base64_data_url, sanitize_filename_component, WebFileItem,
};
use stellaclaw::web::history::{
    compare_message_ids, conversation_message_summary, count_message_lines, decorate_message,
    find_message, message_skeleton, message_skeletons, message_summary, parse_message_order, read_message_by_id,
    read_message_page, summary_from_index, LogEntry, MessageOrder,
};
use stellaclaw::web::messages::{
    message_can_be_read, render_web_message, MessageFacts, Resolution, WebMessageItem,
};
use stellaclaw::web::selection::{
    sanitize_selection_references, web_send_message_to_chat_message, SendMessageRequest,
};
use stellaclaw::web::single_session::{message_page_payload, websocket_messages_payload};

fn json_of(value: &serde_json::Value) -> Json {
    match value {
        serde_json::Value::Null => Json::Null,
        serde_json::Value::Bool(b) => Json::Bool(*b),
        serde_json::Value::Number(n) => {
            if let Some(u) = n.as_u64() {
                Json::Number(JsonNumber::Unsigned(u))
            } else if let Some(i) = n.as_i64() {
                Json::Number(JsonNumber::Negative(i))
            } else {
                Json::Number(JsonNumber::Other(n.to_string()))
            }
        }
        serde_json::Value::String(t) => Json::Text(t.clone()),
        serde_json::Value::Array(list) => Json::Array(list.iter().map(json_of).collect()),
        serde_json::Value::Object(map) => {
            Json::Object(map.iter().map(|(k, v)| (k.clone(), json_of(v))).collect())
        }
    }
}

fn parse(text: &str) -> Json {
    json_of(&serde_json::from_str(text).unwrap())
}

fn no_facts() -> MessageFacts {
    MessageFacts {
        resolutions: TextMap::new(),
        files: TextMap::new(),
    }
}

fn assistant(data: Vec<ChatMessageItem>) -> ChatMessage {
    ChatMessage {
        message_id: "msg_1".to_string(),
        role: ChatRole::Assistant,
        user_name: None,
        message_time: None,
        token_usage: None,
        data,
    }
}

fn text_item(text: &str) -> ChatMessageItem {
    ChatMessageItem::Context(ContextItem {
        text: text.to_string(),
    })
}

fn roots(conversation_id: &str) -> WebAttachmentRoots {
    WebAttachmentRoots {
        workspace_root: format!("/work/conversations/{conversation_id}"),
        shared_root: "/work/shared".to_string(),
    }
}

fn facts_of_path(conversation_id: &str, path: &str) -> PathFacts {
    PathFacts {
        candidate: format!("/work/conversations/{conversation_id}/{path}"),
        canonical: Ok(format!("/work/conversations/{conversation_id}/{path}")),
        canonical_root: Ok(format!("/work/conversations/{conversation_id}")),
        canonical_shared: Some("/work/shared".to_string()),
        is_file: true,
    }
}

fn no_links() -> CanonicalPaths {
    CanonicalPaths {
        path: None,
        workspace_root: None,
        shared_root: None,
    }
}

fn resolve(conversation_id: &str, path: &str, size: u64, preview: Option<CachedImagePreview>) -> MessageFacts {
    let roots = roots(conversation_id);
    let attachment = resolve_outgoing_attachment(
        &roots.workspace_root,
        path,
        &facts_of_path(conversation_id, path),
    )
    .unwrap();
    let shown = attachment_workspace_path(&attachment.path, &roots, &no_links());
    let mut facts = no_facts();
    facts.resolutions.insert(
        path,
        Resolution::Shown(
            attachment,
            FileFacts {
                workspace_path: shown,
                size_bytes: Some(size),
                preview,
            },
        ),
    );
    facts
}

fn preview() -> CachedImagePreview {
    CachedImagePreview {
        original_width: 800,
        original_height: 600,
        thumbnail: CachedThumbnail {
            media_type: "image/jpeg".to_string(),
            data_base64: "aGVsbG8gd29ybGQ=".to_string(),
            data_url: "data:image/jpeg;base64,aGVsbG8gd29ybGQ=".to_string(),
            width: 800,
            height: 600,
            size_bytes: 11,
        },
    }
}

#[test]
fn web_data_url_file_items_are_materialized_before_chat_storage() {
    let stored = materialize_web_data_file(
        "/work/conversations/web-main-test-materialize",
        "web-message-1",
        0,
        &WebFileItem {
            uri: "data:image/png;base64,aGVsbG8=".to_string(),
            media_type: None,
            name: Some("photo.png".to_string()),
        },
    )
    .expect("data url should materialize");

    let file = &stored.item;
    assert!(file.uri.starts_with("file://"));
    assert!(file.uri.contains(".stellaclaw/attachments/incoming"));
    assert_eq!(file.media_type.as_deref(), Some("image/png"));
    assert!(file
        .name
        .as_deref()
        .is_some_and(|name| name.ends_with("photo.png")));
    assert_eq!(file.uri.strip_prefix("file://").unwrap(), stored.path);
    assert_eq!(stored.bytes, b"hello");
    assert_eq!(
        stored.path,
        "/work/conversations/web-main-test-materialize/.stellaclaw/attachments/incoming/web-message-1-1-photo.png"
    );
}

#[test]
fn data_urls_that_cannot_be_read_are_refused() {
    let file = |uri: &str| WebFileItem {
        uri: uri.to_string(),
        media_type: None,
        name: None,
    };
    let fails = |uri: &str| materialize_web_data_file("/w", "m", 0, &file(uri)).unwrap_err();
    assert_eq!(fails("data:image/png;base64"), "malformed data URL file item");
    assert_eq!(
        fails("data:image/png,hello"),
        "data URL file item must be base64 encoded"
    );
    assert_eq!(
        fails("data:;base64,***"),
        "failed to decode web message data URL file"
    );
    let stored = materialize_web_data_file("/w", "a b", 1, &file("data:;base64,aGVsbG8=")).unwrap();
    assert_eq!(stored.item.name.as_deref(), Some("a_b-2-attachment-2.bin"));
    assert!(stored.item.media_type.is_none());
    assert_eq!(
        parse_base64_data_url("data: text/plain ;base64,eA==").unwrap(),
        (Some("text/plain".to_string()), "eA==")
    );
    assert_eq!(sanitize_filename_component("__../x y__"), ".._x_y");
    assert_eq!(sanitize_filename_component("___"), "file");
}

#[test]
fn web_file_items_infer_media_type_for_materialized_paths() {
    let file: FileItem = WebFileItem {
        uri: "file:///workspace/report.pdf".to_string(),
        media_type: None,
        name: None,
    }
    .file_item();

    assert_eq!(file.media_type.as_deref(), Some("application/pdf"));
    assert_eq!(file.uri, "file:///workspace/report.pdf");
}

#[test]
fn media_types_and_extensions_belong_together() {
    for (extension, media_type) in [
        ("png", "image/png"),
        ("webp", "image/webp"),
        ("gif", "image/gif"),
        ("pdf", "application/pdf"),
        ("mp3", "audio/mpeg"),
        ("ogg", "audio/ogg"),
        ("wav", "audio/wav"),
        ("m4a", "audio/mp4"),
        ("flac", "audio/flac"),
        ("mp4", "video/mp4"),
        ("mov", "video/quicktime"),
        ("txt", "text/plain"),
    ] {
        assert_eq!(
            infer_media_type_from_path_text(&format!("/a/b.{extension}?x=1")).as_deref(),
            Some(media_type)
        );
        assert_eq!(extension_for_media_type(Some(media_type)), extension);
    }
    assert_eq!(
        infer_media_type_from_path_text("x.JPEG").as_deref(),
        Some("image/jpeg")
    );
    assert_eq!(extension_for_media_type(Some("image/jpeg")), "jpg");
    assert_eq!(extension_for_media_type(None), "bin");
    assert!(infer_media_type_from_path_text("noextension").is_none());
}

#[test]
fn conversation_message_summary_uses_message_id() {
    let entries = vec![
        Some(LogEntry {
            message_id: "msg_1".to_string(),
            message_time: None,
        }),
        Some(LogEntry {
            message_id: "msg_2".to_string(),
            message_time: Some("2026-04-30T15:30:46Z".to_string()),
        }),
    ];
    let summary = conversation_message_summary(&entries, &None);

    assert_eq!(summary.message_count, 2);
    assert_eq!(summary.last_message_id.as_deref(), Some("msg_2"));
    assert_eq!(
        summary.last_message_time.as_deref(),
        Some("2026-04-30T15:30:46Z")
    );
}

#[test]
fn a_log_is_summed_up_by_what_can_be_read() {
    let entries = vec![
        Some(LogEntry {
            message_id: "".to_string(),
            message_time: None,
        }),
        None,
    ];
    let summary = conversation_message_summary(&entries, &Some("then".to_string()));
    assert_eq!(summary.message_count, 2);
    assert!(summary.last_message_id.is_none());
    assert_eq!(summary.last_message_time.as_deref(), Some("then"));
    let empty = conversation_message_summary(&vec![None], &Some("then".to_string()));
    assert!(empty.last_message_time.is_none());
    let indexed = summary_from_index(4, Some("msg_4".to_string()), None, Some("then".to_string()));
    assert_eq!(indexed.last_message_time.as_deref(), Some("then"));
}

#[test]
fn web_message_rendering_extracts_attachment_metadata() {
    let conversation_id = "web-main-test-attachment";
    let message = assistant(vec![text_item("done\n<attachment>report.txt</attachment>")]);
    let facts = resolve(conversation_id, "report.txt", 5, None);
    let rendered = render_web_message(&message, conversation_id, &facts);

    assert_eq!(rendered.text, "done");
    assert_eq!(
        rendered.text_with_attachment_markers,
        "done\n[[attachment:0]]"
    );
    assert_eq!(rendered.items.len(), 1);
    assert!(matches!(
        &rendered.items[0],
        WebMessageItem::Text { text, text_with_attachment_markers, .. }
            if text == "done" && text_with_attachment_markers == "done\n[[attachment:0]]"
    ));
    assert!(rendered.attachment_errors.is_empty());
    assert_eq!(rendered.attachments.len(), 1);
    assert_eq!(rendered.attachments[0].kind, "document");
    assert_eq!(rendered.attachments[0].path, "report.txt");
    assert_eq!(rendered.attachments[0].name, "report.txt");
    assert_eq!(rendered.attachments[0].source, "attachment_tag");
    assert_eq!(
        rendered.attachments[0].marker.as_deref(),
        Some("[[attachment:0]]")
    );
    assert_eq!(rendered.attachments[0].size_bytes, Some(5));
    assert_eq!(
        rendered.attachments[0].url,
        "/api/conversations/web-main-test-attachment/workspace/file?path=report.txt"
    );

    let skeleton = message_skeleton(7, &message, conversation_id, &facts);
    assert_eq!(skeleton.preview, "done");
    assert_eq!(skeleton.text, "done");
    assert_eq!(
        skeleton.text_with_attachment_markers,
        "done\n[[attachment:0]]"
    );
    assert_eq!(skeleton.items.len(), 1);
    assert_eq!(skeleton.attachment_count, 1);
    assert_eq!(skeleton.attachments.len(), 1);
    assert!(!skeleton.has_attachment_errors);
}

#[test]
fn web_message_skeleton_returns_tool_calls_as_structured_items() {
    let arguments = r#"{"cmd":"ls -la","timeout_seconds":5}"#;
    let message = assistant(vec![ChatMessageItem::ToolCall(ToolCallItem {
        tool_call_id: "call_1".to_string(),
        tool_name: "shell".to_string(),
        arguments: arguments.to_string(),
        value: Some(parse(arguments)),
    })]);
    let skeleton = message_skeleton(0, &message, "web-main-test-tool-call-items", &no_facts());

    assert_eq!(skeleton.preview, "");
    assert_eq!(skeleton.text, "");
    match &skeleton.items[0] {
        WebMessageItem::ToolCall {
            tool_call_id,
            tool_name,
            arguments,
            ..
        } => {
            assert_eq!(tool_call_id, "call_1");
            assert_eq!(tool_name, "shell");
            assert_eq!(arguments.text_field("cmd"), Some("ls -la"));
            assert_eq!(arguments.unsigned_field("timeout_seconds"), Some(5));
        }
        _ => panic!("a tool call stays a tool call"),
    }
}

#[test]
fn arguments_that_are_no_json_stay_text() {
    let message = assistant(vec![ChatMessageItem::ToolCall(ToolCallItem {
        tool_call_id: "call_1".to_string(),
        tool_name: "shell".to_string(),
        arguments: "ls -la".to_string(),
        value: None,
    })]);
    let rendered = render_web_message(&message, "c", &no_facts());
    assert!(matches!(
        &rendered.items[0],
        WebMessageItem::ToolCall { arguments: Json::Text(t), .. } if t == "ls -la"
    ));
}

#[test]
fn web_message_payloads_include_token_usage() {
    let mut message = assistant(vec![text_item("done")]);
    message.token_usage = Some(TokenUsage {
        cache_read: 11,
        cache_write: 12,
        uncache_input: 13,
        output: 14,
        cost_usd: Some(parse(
            r#"{"cache_read":0.001,"cache_write":0.002,"uncache_input":0.003,"output":0.004}"#,
        )),
    });
    let skeleton = message_skeleton(0, &message, "web-main-test-token-usage", &no_facts());
    assert!(skeleton.has_token_usage);
    let usage = skeleton.token_usage.unwrap();
    assert_eq!(usage.cache_read, 11);
    assert_eq!(usage.cache_write, 12);
    assert_eq!(usage.uncache_input, 13);
    assert_eq!(usage.input, 13);
    assert_eq!(usage.output, 14);
    assert_eq!(usage.total, 50);
    let cost = usage.cost_usd.unwrap();
    assert!(cost.get("output").unwrap().same(&parse("0.004")));
    assert!(cost.get("uncache_input").unwrap().same(&parse("0.003")));

    let page = message_page_payload("c", 0, 50, 1, vec![Json::object()]);
    assert_eq!(page.unsigned_field("total"), Some(1));
    let metadata = stellaclaw::web::ids::ConversationMetadata {
        conversation_id: "c".to_string(),
        nickname: "c".to_string(),
        channel_id: "web-main".to_string(),
        platform_chat_id: "test-chat".to_string(),
        foreground_session_id: "c.foreground".to_string(),
        model_selection_pending: false,
        session_nicknames: TextMap::new(),
    };
    let websocket = websocket_messages_payload(&metadata, 4, 5, 9, vec![Json::object()]);
    assert_eq!(websocket.unsigned_field("start_index"), Some(4));
    assert_eq!(websocket.unsigned_field("end_index"), Some(5));
    assert_eq!(websocket.text_field("session_id"), Some("c.foreground"));
}

#[test]
fn token_totals_stay_at_the_greatest_number() {
    let mut message = assistant(vec![]);
    message.token_usage = Some(TokenUsage {
        cache_read: u64::MAX,
        cache_write: 1,
        uncache_input: 2,
        output: 3,
        cost_usd: None,
    });
    let skeleton = message_skeleton(0, &message, "c", &no_facts());
    assert_eq!(skeleton.token_usage.unwrap().total, u64::MAX);
}

#[test]
fn web_message_skeleton_keeps_full_text_preview() {
    let text = "0123456789".repeat(40);
    let message = assistant(vec![text_item(&text)]);
    let skeleton = message_skeleton(7, &message, "web-main-test-full-preview", &no_facts());

    assert_eq!(skeleton.preview, text);
    assert!(!skeleton.preview.ends_with("..."));
}

#[test]
fn web_message_rendering_inlines_image_attachment_thumbnail() {
    let conversation_id = "web-main-test-attachment-image-thumbnail";
    let message = assistant(vec![text_item("photo\n<attachment>photo.png</attachment>")]);
    let facts = resolve(conversation_id, "photo.png", 900, Some(preview()));
    let rendered = render_web_message(&message, conversation_id, &facts);

    assert_eq!(rendered.text, "photo");
    assert_eq!(
        rendered.text_with_attachment_markers,
        "photo\n[[attachment:0]]"
    );
    assert!(rendered.attachment_errors.is_empty());
    assert_eq!(rendered.attachments.len(), 1);
    assert_eq!(rendered.attachments[0].source, "attachment_tag");
    assert_eq!(
        rendered.attachments[0].marker.as_deref(),
        Some("[[attachment:0]]")
    );
    assert_eq!(rendered.attachments[0].kind, "image");
    assert_eq!(rendered.attachments[0].path, "photo.png");
    assert_eq!(rendered.attachments[0].width, Some(800));
    assert_eq!(rendered.attachments[0].height, Some(600));
    let thumbnail = rendered.attachments[0]
        .thumbnail
        .as_ref()
        .expect("image attachment should include thumbnail");
    assert_eq!(thumbnail.media_type, "image/jpeg");
    assert_eq!(thumbnail.width, 800);
    assert_eq!(thumbnail.height, 600);
    assert!(!thumbnail.data_base64.is_empty());
    assert!(thumbnail.size_bytes <= 256 * 1024);
    assert!(thumbnail.data_url.starts_with("data:image/jpeg;base64,"));

    let page = message_skeletons(0, &[message], conversation_id, &vec![facts]);
    assert_eq!(page.len(), 1);
    assert_eq!(page[0].index, 0);
    assert_eq!(page[0].attachments[0].source, "attachment_tag");
    assert_eq!(
        page[0].text_with_attachment_markers,
        "photo\n[[attachment:0]]"
    );
    assert_eq!(
        page[0].attachments[0].marker.as_deref(),
        Some("[[attachment:0]]")
    );
    assert!(matches!(
        &page[0].items[0],
        WebMessageItem::Text {
            text_with_attachment_markers,
            ..
        } if text_with_attachment_markers == "photo\n[[attachment:0]]"
    ));
    assert!(page[0].attachments[0].thumbnail.as_ref().unwrap().data_base64.len() > 10);
}

#[test]
fn web_message_rendering_reports_attachment_errors_without_raw_tags() {
    let conversation_id = "web-main-test-attachment-missing";
    let message = assistant(vec![text_item("done\n<attachment>missing.txt</attachment>")]);
    let refused = resolve_outgoing_attachment(
        &roots(conversation_id).workspace_root,
        "missing.txt",
        &PathFacts {
            canonical: Err("No such file or directory (os error 2)".to_string()),
            ..facts_of_path(conversation_id, "missing.txt")
        },
    )
    .unwrap_err();
    let mut facts = no_facts();
    facts
        .resolutions
        .insert("missing.txt", Resolution::Refused(refused));
    let rendered = render_web_message(&message, conversation_id, &facts);

    assert_eq!(rendered.text, "done\nmissing.txt");
    assert!(rendered.attachments.is_empty());
    assert_eq!(rendered.attachment_errors.len(), 1);
    assert!(!rendered.text.contains("<attachment>"));
    assert_eq!(
        rendered.attachment_errors[0],
        "attachment path does not exist: /work/conversations/web-main-test-attachment-missing/missing.txt: No such file or directory (os error 2)"
    );

    let skeleton = message_skeleton(7, &message, conversation_id, &facts);
    assert_eq!(skeleton.preview, "done\nmissing.txt");
    assert_eq!(skeleton.attachment_count, 0);
    assert!(skeleton.has_attachment_errors);
}

#[test]
fn web_message_rendering_exposes_reasoning_summary_items() {
    let message = assistant(vec![ChatMessageItem::Reasoning(ReasoningItem {
        text: "raw reasoning".to_string(),
        summary: Some("checked current patch".to_string()),
        encrypted_content: Some("encrypted-state".to_string()),
    })]);
    let rendered = render_web_message(&message, "web-main-test-reasoning-summary", &no_facts());

    assert_eq!(rendered.text, "");
    assert_eq!(rendered.items.len(), 1);
    assert!(matches!(
        &rendered.items[0],
        WebMessageItem::Reasoning { text, summary, .. }
            if text == "checked current patch"
                && summary.as_deref() == Some("checked current patch")
    ));
    let skeleton = message_skeleton(3, &message, "web-main-test-reasoning-summary", &no_facts());
    assert_eq!(skeleton.data.len(), 1);
    assert!(matches!(
        &skeleton.data[0],
        ChatMessageItem::Reasoning(reasoning)
            if reasoning.summary.as_deref() == Some("checked current patch")
                && reasoning.encrypted_content.is_none()
    ));
}

#[test]
fn web_message_rendering_includes_structured_file_items() {
    let conversation_id = "web-main-test-structured-file";
    let file_path = format!("/work/conversations/{conversation_id}/image.png");
    let uri = format!("file://{file_path}");
    let message = assistant(vec![
        text_item("here"),
        ChatMessageItem::File(FileItem {
            uri: uri.clone(),
            name: Some("image.png".to_string()),
            media_type: Some("image/png".to_string()),
            width: Some(640),
            height: Some(480),
            state: None,
        }),
    ]);
    assert!(message_can_be_read(&message));
    let mut facts = no_facts();
    facts.note_file(
        &uri,
        FileFacts {
            workspace_path: attachment_workspace_path(&file_path, &roots(conversation_id), &no_links()),
            size_bytes: Some(900),
            preview: Some(preview()),
        },
    );
    let rendered = render_web_message(&message, conversation_id, &facts);

    assert_eq!(rendered.text, "here");
    assert!(rendered.attachment_errors.is_empty());
    assert_eq!(rendered.attachments.len(), 1);
    assert_eq!(rendered.attachments[0].source, "message_file");
    assert_eq!(rendered.attachments[0].kind, "image");
    assert_eq!(rendered.attachments[0].path, "image.png");
    assert_eq!(rendered.attachments[0].uri, uri);
    assert_eq!(
        rendered.attachments[0].media_type.as_deref(),
        Some("image/png")
    );
    assert_eq!(rendered.attachments[0].width, Some(640));
    assert_eq!(rendered.attachments[0].height, Some(480));
    assert!(rendered.attachments[0].size_bytes.unwrap_or_default() > 0);
    assert!(rendered.attachments[0].thumbnail.is_some());
    assert_eq!(
        rendered.attachments[0].url,
        "/api/conversations/web-main-test-structured-file/workspace/file?path=image.png"
    );

    let skeleton = message_skeleton(7, &message, conversation_id, &facts);
    assert_eq!(skeleton.preview, "here");
    assert_eq!(skeleton.attachment_count, 1);
}

#[test]
fn web_message_rendering_includes_tool_result_files() {
    let conversation_id = "web-main-test-tool-result-file";
    let file_path = format!("/work/conversations/{conversation_id}/result.txt");
    let uri = format!("file://{file_path}");
    let message = assistant(vec![ChatMessageItem::ToolResult(ToolResultItem {
        tool_call_id: "call_1".to_string(),
        tool_name: "shell_exec".to_string(),
        text: "downloaded".to_string(),
        structured: None,
        files: vec![FileItem {
            uri: uri.clone(),
            name: Some("result.txt".to_string()),
            media_type: Some("text/plain".to_string()),
            width: None,
            height: None,
            state: None,
        }],
    })]);
    let mut facts = no_facts();
    facts.note_file(
        &uri,
        FileFacts {
            workspace_path: attachment_workspace_path(&file_path, &roots(conversation_id), &no_links()),
            size_bytes: Some(12),
            preview: None,
        },
    );
    let rendered = render_web_message(&message, conversation_id, &facts);

    assert_eq!(rendered.text, "");
    assert_eq!(rendered.text_with_attachment_markers, "");
    assert_eq!(rendered.items.len(), 1);
    assert!(matches!(
        &rendered.items[0],
        WebMessageItem::ToolResult {
            tool_call_id,
            tool_name,
            context: Some(context),
            context_with_attachment_markers: Some(context_with_attachment_markers),
            file_attachment_indices,
            ..
        } if tool_call_id == "call_1"
            && tool_name == "shell_exec"
            && context == "downloaded"
            && context_with_attachment_markers == "downloaded"
            && file_attachment_indices == &vec![0]
    ));
    assert!(rendered.attachment_errors.is_empty());
    assert_eq!(rendered.attachments.len(), 1);
    assert_eq!(rendered.attachments[0].source, "tool_result_file");
    assert_eq!(rendered.attachments[0].kind, "document");
    assert_eq!(rendered.attachments[0].path, "result.txt");
    assert_eq!(rendered.attachments[0].size_bytes, Some(12));

    let skeleton = message_skeleton(7, &message, conversation_id, &facts);
    assert_eq!(skeleton.preview, "");
    assert_eq!(skeleton.text, "");
    assert_eq!(skeleton.text_with_attachment_markers, "");
    assert_eq!(skeleton.items.len(), 1);
    assert_eq!(skeleton.attachment_count, 1);
}

#[test]
fn tags_are_taken_out_but_for_those_in_code() {
    let text = "a <attachment> x.png </attachment> b\n```\n<attachment>y</attachment>\n```\n<attachment></attachment>c <attachment>z.txt</attachment>";
    let r = extract_attachment_references_with_markers(text, 3);
    assert_eq!(r.paths, vec!["x.png", "z.txt"]);
    assert_eq!(
        r.clean_text,
        "a  b\n```\n<attachment>y</attachment>\n```\nc"
    );
    assert_eq!(
        r.marked_text,
        "a [[attachment:3]] b\n```\n<attachment>y</attachment>\n```\nc [[attachment:4]]"
    );
    assert_eq!(
        strip_attachment_tags("a <attachment> x </attachment>b<attachment>open"),
        "a xb<attachment>open"
    );
    let plain = extract_attachment_references_with_markers("no tags", 0);
    assert_eq!(plain.clean_text, "no tags");
    assert!(plain.paths.is_empty());
}

#[test]
fn files_outside_the_workspace_are_not_shown() {
    let facts = PathFacts {
        canonical: Ok("/etc/passwd".to_string()),
        ..facts_of_path("c", "link")
    };
    assert_eq!(
        resolve_outgoing_attachment("/work/conversations/c", "link", &facts).unwrap_err(),
        "attachment path escapes conversation root: /etc/passwd"
    );
    let directory = PathFacts {
        is_file: false,
        ..facts_of_path("c", "dir")
    };
    assert!(
        resolve_outgoing_attachment("/work/conversations/c", "dir", &directory)
            .unwrap_err()
            .starts_with("attachment path is not a regular file")
    );
    let shared = PathFacts {
        canonical: Ok("/work/shared/a.txt".to_string()),
        ..facts_of_path("c", "x")
    };
    assert!(resolve_outgoing_attachment("/work/conversations/c", "a.txt", &shared).is_err());
    assert!(resolve_outgoing_attachment(
        "/work/conversations/c",
        ".stellaclaw/shared/a.txt",
        &shared
    )
    .is_ok());
    assert!(is_shared_attachment_path(".stellaclaw/shared"));
    assert!(!is_shared_attachment_path(".stellaclaw/shared/ "));
    let rootless = PathFacts {
        canonical_root: Err("gone".to_string()),
        ..facts_of_path("c", "x")
    };
    assert_eq!(
        resolve_outgoing_attachment("/work/conversations/c", "x", &rootless).unwrap_err(),
        "failed to canonicalize /work/conversations/c: gone"
    );
}

#[test]
fn absolute_paths_into_a_conversation_are_found_in_its_workspace() {
    assert_eq!(
        attachment_candidate_paths("/work/conversations/c", "/old/conversations/c/a/b.txt"),
        (
            Some("/work/conversations/c/a/b.txt".to_string()),
            "/old/conversations/c/a/b.txt".to_string()
        )
    );
    assert_eq!(
        attachment_candidate_paths("/work/conversations/c", "a.txt"),
        (None, "/work/conversations/c/a.txt".to_string())
    );
    assert_eq!(
        attachment_candidate_paths("/work/conversations/c", "/x/conversations/d/a").0,
        None
    );
    let roots = roots("c");
    assert_eq!(
        attachment_workspace_path("/work/shared/x/y", &roots, &no_links()).as_deref(),
        Some(".stellaclaw/shared/x/y")
    );
    let linked = CanonicalPaths {
        path: Some("/real/c/x".to_string()),
        workspace_root: Some("/real/c".to_string()),
        shared_root: None,
    };
    assert_eq!(
        attachment_workspace_path("/link/x", &roots, &linked).as_deref(),
        Some("x")
    );
    assert_eq!(attachment_workspace_path("/elsewhere", &roots, &no_links()), None);
    assert_eq!(
        infer_outgoing_attachment_kind("/a/B.PNG"),
        OutgoingAttachmentKind::Image
    );
    assert_eq!(
        infer_outgoing_attachment_kind("/a/b.ogg"),
        OutgoingAttachmentKind::Voice
    );
    let _ = OutgoingAttachment {
        path: String::new(),
        kind: OutgoingAttachmentKind::Document,
    };
}

fn selection(path: &str, kind: &str, text: &str) -> SelectionReferenceItem {
    SelectionReferenceItem {
        file_path: path.to_string(),
        source_kind: kind.to_string(),
        selected_text: text.to_string(),
        original_text_length: None,
        file_name: Some("  ".to_string()),
        media_type: Some(" text/html ".to_string()),
        locator: Some(SelectionLocator {
            kind: "HEADING".to_string(),
            heading: Some("\0H\0".to_string()),
            selector: None,
            xpath: None,
            block_id: None,
            anchor_text: None,
            rects: (0..20).map(|_| Json::Null).collect(),
        }),
        context: None,
    }
}

#[test]
fn selections_are_cleaned_and_limited() {
    let mut list: Vec<SelectionReferenceItem> = (0..12)
        .map(|i| selection(&format!("//docs/{i}.html"), "ÄPFEL", &"x".repeat(5000)))
        .collect();
    list[1].selected_text = " \0 ".to_string();
    let kept = sanitize_selection_references(list);
    assert_eq!(kept.len(), 7);
    assert_eq!(kept[0].file_path, "docs/0.html");
    assert_eq!(kept[0].source_kind, "äpfel");
    assert_eq!(kept[0].selected_text.len(), 4000);
    assert_eq!(kept[0].original_text_length, Some(5000));
    assert!(kept[0].file_name.is_none());
    assert_eq!(kept[0].media_type.as_deref(), Some("text/html"));
    let locator = kept[0].locator.as_ref().unwrap();
    assert_eq!(locator.kind, "heading");
    assert_eq!(locator.heading.as_deref(), Some("H"));
    assert_eq!(locator.rects.len(), 16);
    assert_eq!(kept[1].file_path, "docs/2.html");
}

fn request(text: Option<&str>) -> SendMessageRequest {
    SendMessageRequest {
        remote_message_id: None,
        user_name: Some("u".to_string()),
        message_time: Some(" 2024-01-02T03:04:05+02:00 ".to_string()),
        text: text.map(|t| t.to_string()),
        selection_references: None,
        files: None,
    }
}

#[test]
fn sent_messages_become_chat_messages() {
    let mut full = request(Some("hi"));
    full.files = Some(vec![WebFileItem {
        uri: "a.txt".to_string(),
        media_type: Some(" ".to_string()),
        name: None,
    }]);
    full.selection_references = Some(vec![selection("a", "b", "c")]);
    let m = web_send_message_to_chat_message(full, "id".to_string(), "now".to_string()).unwrap();
    assert_eq!(m.message_id, "id");
    assert_eq!(m.message_time.as_deref(), Some("2024-01-02T03:04:05+02:00"));
    assert_eq!(m.data.len(), 3);
    assert!(matches!(&m.data[0], ChatMessageItem::Context(c) if c.text == "hi"));
    assert!(matches!(&m.data[1], ChatMessageItem::SelectionReference(_)));
    assert!(
        matches!(&m.data[2], ChatMessageItem::File(f) if f.media_type.as_deref() == Some("text/plain"))
    );
    let e = web_send_message_to_chat_message(request(Some("  ")), "i".to_string(), "n".to_string())
        .unwrap_err();
    assert_eq!(e.status, 400);
    let mut late = request(Some("x"));
    late.message_time = Some("yesterday".to_string());
    let m = web_send_message_to_chat_message(late, "i".to_string(), "now".to_string()).unwrap();
    assert_eq!(m.message_time.as_deref(), Some("now"));
}

#[test]
fn pages_of_a_log_follow_each_other() {
    let lines: Vec<String> = ["a", " ", "b", "c", "", "d"]
        .iter()
        .map(|t| t.to_string())
        .collect();
    assert_eq!(count_message_lines(&lines), 4);
    let first = read_message_page(&lines, 0, 3);
    let second = read_message_page(&lines, 3, 3);
    assert_eq!(first.lines, vec!["a", "b", "c"]);
    assert_eq!(second.lines, vec!["d"]);
    assert_eq!((second.start, second.end, second.total), (3, 4, 4));
    let beyond = read_message_page(&lines, 9, usize::MAX);
    assert_eq!((beyond.start, beyond.end), (4, 4));
    assert!(beyond.lines.is_empty());
    let ids = vec!["x".to_string(), "y".to_string(), "y".to_string()];
    assert_eq!(read_message_by_id(&ids, "y"), Some(1));
    assert_eq!(read_message_by_id(&ids, "z"), None);
}

#[test]
fn messages_are_ordered_by_place_or_number() {
    assert_eq!(parse_message_order("msg_12_ab"), Some(12));
    assert_eq!(parse_message_order("msg_12"), None);
    assert_eq!(
        compare_message_ids("msg_2_a", "msg_10_b", None, None),
        Some(MessageOrder::Before)
    );
    assert_eq!(
        compare_message_ids("msg_2_a", "msg_10_b", Some(5), Some(4)),
        Some(MessageOrder::After)
    );
    assert_eq!(compare_message_ids("a", "a", None, None), Some(MessageOrder::Same));
    assert_eq!(compare_message_ids("a", "b", Some(1), None), None);
}

#[test]
fn messages_are_decorated_summed_up_and_found() {
    let a = decorate_message(parse(r#"{"message_id":"m1","role":"user"}"#), "m1", 4);
    assert_eq!(a.text_field("id"), Some("m1"));
    assert_eq!(a.unsigned_field("index"), Some(4));
    let b = decorate_message(
        parse(r#"{"message_id":"","message_time":"t"}"#),
        "",
        5,
    );
    assert!(b.get("id").is_none());
    let list = vec![a, b];
    let summary = message_summary(&list);
    assert_eq!(summary.message_count, 2);
    assert_eq!(summary.last_message_index, Some(5));
    assert_eq!(summary.last_message_id.as_deref(), Some(""));
    assert_eq!(summary.last_message_time.as_deref(), Some("t"));
    assert_eq!(find_message(&list, "m1").unwrap().unsigned_field("index"), Some(4));
    assert_eq!(find_message(&list, "5").unwrap().text_field("message_time"), Some("t"));
    assert!(find_message(&list, "6").is_none());
}

#[test]
fn a_file_that_stands_twice_keeps_its_preview() {
    let item = |media_type: &str| {
        ChatMessageItem::File(FileItem {
            uri: "file:///work/conversations/c/a.bin".to_string(),
            name: None,
            media_type: Some(media_type.to_string()),
            width: None,
            height: None,
            state: None,
        })
    };
    let known = |preview: Option<CachedImagePreview>| FileFacts {
        workspace_path: Some("a.bin".to_string()),
        size_bytes: Some(9),
        preview,
    };
    let message = assistant(vec![item("image/png"), item("application/zip")]);
    for image_first in [true, false] {
        let mut facts = no_facts();
        for is_image in [image_first, !image_first] {
            facts.note_file(
                "file:///work/conversations/c/a.bin",
                known(if is_image { Some(preview()) } else { None }),
            );
        }
        let rendered = render_web_message(&message, "c", &facts);
        assert!(rendered.attachments[0].thumbnail.is_some());
        assert_eq!(rendered.attachments[0].width, Some(800));
        assert!(rendered.attachments[1].thumbnail.is_none());
        assert_eq!(rendered.attachments[1].kind, "document");
    }
}

#[test]
fn listed_messages_are_numbered_from_the_start_of_their_page() {
    let messages = [assistant(vec![text_item("a")]), assistant(vec![text_item("b")])];
    let page = message_skeletons(4, &messages, "c", &vec![no_facts(), no_facts()]);
    assert_eq!(
        page.iter().map(|m| (m.index, m.text.as_str())).collect::<Vec<_>>(),
        vec![(4, "a"), (5, "b")]
    );
}

#[test]
fn files_of_a_message_are_taken_in_order_up_to_a_wrong_one() {
    let file = |uri: &str| WebFileItem {
        uri: uri.to_string(),
        media_type: None,
        name: None,
    };
    let files = vec![
        file("https://example.org/a.png"),
        file("data:text/plain;base64,aGVsbG8="),
        file("data:text/plain,hello"),
        file("data:text/plain;base64,aGVsbG8="),
    ];
    let taken = materialize_web_file_items("/w", "m", &files);
    assert_eq!(taken.files.len(), 2);
    assert!(matches!(
        &taken.files[0],
        IncomingFile::Kept(f) if f.uri == "https://example.org/a.png"
            && f.media_type.as_deref() == Some("image/png")
    ));
    assert!(matches!(
        &taken.files[1],
        IncomingFile::ToStore(d) if d.bytes == b"hello"
            && d.path == "/w/.stellaclaw/attachments/incoming/m-2-attachment-2.txt"
    ));
    assert_eq!(
        taken.error.as_deref(),
        Some("data URL file item must be base64 encoded")
    );
    let all = materialize_web_file_items("/w", "m", &vec![file("x")]);
    assert_eq!((all.files.len(), all.error), (1, None));
}

#[test]
fn parts_of_file_names_are_plain() {
    assert_eq!(sanitize_filename_component("__a/b c__"), "a_b_c");
    assert_eq!(sanitize_filename_component(&sanitize_filename_component("__a/b c__")), "a_b_c");
    assert_eq!(sanitize_filename_component("///"), "file");
}
