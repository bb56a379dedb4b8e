//! Terminals of conversations that have sessions.

use vstd::prelude::*;
use crate::encoding::{base64_encode, base64_of};
use crate::json::{array_view, group_json, Json, JsonView};
use crate::text::{cat2, text_eq};
use crate::web::frame::ClientWebSocketFrame;
use crate::web::http::HttpError;
use crate::web::terminal_stream::{
    encoding_label, encoding_name, RequestView, TerminalChunk, TerminalDataEncoding,
    TerminalReplaySnapshot, TerminalRequest, TerminalResponse,
};
use crate::web_terminal::TerminalResizeRequest;

verus! {

broadcast use group_json;

pub open spec fn failed_message(message: Seq<char>) -> JsonView {
    JsonView::empty_object().with("type"@, JsonView::Text("terminal.error"@)).with(
        "message"@,
        JsonView::Text(message),
    )
}

fn make_failed(message: &str) -> (r: Json)
    ensures
        r@ == failed_message(message@),
{
    let mut p: Json = Json::object();
    p.put("type", Json::text("terminal.error"));
    p.put("message", Json::text(message));
    p
}

/// How a request to join a terminal ends.
#[derive(Debug)]
pub enum Joining {
    Joined { replay: TerminalReplaySnapshot, subscriber_id: Option<u64> },
    Refused(Json),
}

/// Reads the answer to a request to join a terminal. `notation` is how programs write
/// the answer.
pub fn join_terminal(response: TerminalResponse, notation: &str) -> (r: Joining)
    ensures
        match response {
            TerminalResponse::Attached { replay, subscriber_id } => r == (Joining::Joined {
                replay,
                subscriber_id,
            }),
            TerminalResponse::Error { message } => r matches Joining::Refused(p) && p@
                == failed_message(message@),
            _ => r matches Joining::Refused(p) && p@ == failed_message(
                "unexpected terminal response: "@ + notation@,
            ),
        },
{
    match response {
        TerminalResponse::Attached { replay, subscriber_id } => Joining::Joined {
            replay,
            subscriber_id,
        },
        TerminalResponse::Error { message } => Joining::Refused(make_failed(message.as_str())),
        _ => {
            let message: String = cat2("unexpected terminal response: ", notation);
            Joining::Refused(make_failed(message.as_str()))
        },
    }
}

pub open spec fn snapshot_message(r: TerminalReplaySnapshot) -> JsonView {
    JsonView::empty_object().with("type"@, JsonView::Text("terminal.snapshot"@)).with(
        "terminal_id"@,
        JsonView::Text(r.terminal_id@),
    ).with("requested_offset"@, JsonView::number(r.requested_offset as nat)).with(
        "replay_start_offset"@,
        JsonView::number(r.replay_start_offset as nat),
    ).with("buffer_start_offset"@, JsonView::number(r.buffer_start_offset as nat)).with(
        "next_offset"@,
        JsonView::number(r.next_offset as nat),
    ).with("dropped_bytes"@, JsonView::number(r.dropped_bytes as nat)).with(
        "running"@,
        JsonView::Bool(r.running),
    )
}

pub open spec fn missed_message(r: TerminalReplaySnapshot) -> JsonView {
    JsonView::empty_object().with("type"@, JsonView::Text("terminal.dropped"@)).with(
        "buffer_start_offset"@,
        JsonView::number(r.buffer_start_offset as nat),
    ).with("dropped_bytes"@, JsonView::number(r.dropped_bytes as nat))
}

pub open spec fn output_message(
    terminal_id: Seq<char>,
    encoding: TerminalDataEncoding,
    data: Seq<char>,
) -> JsonView {
    JsonView::empty_object().with("type"@, JsonView::Text("terminal.output"@)).with(
        "terminal_id"@,
        JsonView::Text(terminal_id),
    ).with("encoding"@, JsonView::Text(encoding_name(encoding))).with(
        "data"@,
        JsonView::Text(data),
    )
}

fn make_output(terminal_id: &str, encoding: TerminalDataEncoding, data: &str) -> (r: Json)
    ensures
        r@ == output_message(terminal_id@, encoding, data@),
{
    let mut p: Json = Json::object();
    p.put("type", Json::text("terminal.output"));
    p.put("terminal_id", Json::text(terminal_id));
    p.put("encoding", Json::text(encoding_label(encoding)));
    p.put("data", Json::text(data));
    p
}

/// What a client is told when it joins.
pub open spec fn joined_messages(terminal_id: Seq<char>, r: TerminalReplaySnapshot) -> Seq<JsonView> {
    seq![snapshot_message(r)] + (if r.dropped_bytes > 0 {
        seq![missed_message(r)]
    } else {
        Seq::empty()
    }) + r.chunks@.map_values(|c: TerminalChunk| output_message(terminal_id, c.encoding, c.data@))
}

pub fn snapshot_messages(terminal_id: &str, replay: &TerminalReplaySnapshot) -> (r: Vec<Json>)
    ensures
        array_view(r@) == joined_messages(terminal_id@, *replay),
{
    let ghost outputs = replay.chunks@.map_values(
        |c: TerminalChunk| output_message(terminal_id@, c.encoding, c.data@),
    );
    let mut p: Json = Json::object();
    p.put("type", Json::text("terminal.snapshot"));
    p.put("terminal_id", Json::text(replay.terminal_id.as_str()));
    p.put("requested_offset", Json::number(replay.requested_offset));
    p.put("replay_start_offset", Json::number(replay.replay_start_offset));
    p.put("buffer_start_offset", Json::number(replay.buffer_start_offset));
    p.put("next_offset", Json::number(replay.next_offset));
    p.put("dropped_bytes", Json::number(replay.dropped_bytes));
    p.put("running", Json::Bool(replay.running));
    let mut r: Vec<Json> = Vec::new();
    r.push(p);
    if replay.dropped_bytes > 0 {
        let mut p: Json = Json::object();
        p.put("type", Json::text("terminal.dropped"));
        p.put("buffer_start_offset", Json::number(replay.buffer_start_offset));
        p.put("dropped_bytes", Json::number(replay.dropped_bytes));
        r.push(p);
    }
    let ghost first = array_view(r@);
    assert(first + outputs =~= joined_messages(terminal_id@, *replay));
    let mut i: usize = 0;
    while i < replay.chunks.len()
        invariant
            i <= replay.chunks@.len(),
            outputs.len() == replay.chunks@.len(),
            forall|k: int|
                0 <= k < outputs.len() ==> (#[trigger] outputs[k]) == output_message(
                    terminal_id@,
                    replay.chunks@[k].encoding,
                    replay.chunks@[k].data@,
                ),
            array_view(r@) =~= first + outputs.take(i as int),
        decreases replay.chunks@.len() - i,
    {
        let c: &TerminalChunk = &replay.chunks[i];
        let p: Json = make_output(terminal_id, c.encoding, c.data.as_str());
        assert(outputs[i as int] == p@);
        r.push(p);
        i += 1;
    }
    assert(outputs.take(outputs.len() as int) =~= outputs);
    r
}

/// What is done about a frame of a client.
#[derive(Debug)]
pub enum ClientStep {
    Nothing,
    /// The terminal is asked for something; `label` begins the id of the request.
    Ask { label: &'static str, request: TerminalRequest },
    Stop,
}

pub enum StepView {
    Nothing,
    Ask(Seq<char>, RequestView),
    Stop,
}

impl ClientStep {
    pub open spec fn view(self) -> StepView {
        match self {
            ClientStep::Nothing => StepView::Nothing,
            ClientStep::Ask { label, request } => StepView::Ask(label@, request@),
            ClientStep::Stop => StepView::Stop,
        }
    }
}

/// A size in a control message, where it is one.
pub open spec fn size_field(value: JsonView, key: Seq<char>, default: u16) -> u16 {
    match value.unsigned_field(key) {
        Some(n) => if n <= u16::MAX {
            n as u16
        } else {
            default
        },
        None => default,
    }
}

fn read_size(value: &Json, key: &str, default: u16) -> (r: u16)
    ensures
        r == size_field(value@, key@, default),
{
    match value.unsigned_field(key) {
        Some(n) => if n <= u16::MAX as u64 {
            n as u16
        } else {
            default
        },
        None => default,
    }
}

/// What a control message asks for.
pub open spec fn control_step(terminal_id: Seq<char>, value: JsonView) -> StepView {
    let kind = value.text_field("type"@);
    if kind == Some("resize"@) {
        StepView::Ask(
            "terminal-resize"@,
            RequestView::Resize(
                terminal_id,
                TerminalResizeRequest {
                    cols: size_field(value, "cols"@, 120),
                    rows: size_field(value, "rows"@, 30),
                },
            ),
        )
    } else if kind == Some("input"@) {
        match value.text_field("data"@) {
            Some(data) => if data.len() == 0 {
                StepView::Nothing
            } else {
                StepView::Ask(
                    "terminal-input"@,
                    RequestView::Input(
                        terminal_id,
                        if value.text_field("encoding"@) == Some("base64"@) {
                            TerminalDataEncoding::Base64
                        } else {
                            TerminalDataEncoding::Utf8
                        },
                        data,
                    ),
                )
            },
            None => StepView::Nothing,
        }
    } else {
        StepView::Nothing
    }
}

pub fn handle_terminal_control_frame(terminal_id: &str, value: &Json) -> (r: ClientStep)
    ensures
        r@ == control_step(terminal_id@, value@),
{
    proof {
        reveal_strlit("resize");
        reveal_strlit("input");
        assert("resize"@.len() != "input"@.len());
    }
    if value.field_is("type", "resize") {
        let request: TerminalResizeRequest = TerminalResizeRequest {
            cols: read_size(value, "cols", 120),
            rows: read_size(value, "rows", 30),
        };
        ClientStep::Ask {
            label: "terminal-resize",
            request: TerminalRequest::Resize { terminal_id: terminal_id.to_owned(), request },
        }
    } else if value.field_is("type", "input") {
        let data: &str = match value.text_field("data") {
            Some(data) => data,
            None => {
                return ClientStep::Nothing;
            },
        };
        if data.is_empty() {
            return ClientStep::Nothing;
        }
        let encoding: TerminalDataEncoding = if value.field_is("encoding", "base64") {
            TerminalDataEncoding::Base64
        } else {
            TerminalDataEncoding::Utf8
        };
        ClientStep::Ask {
            label: "terminal-input",
            request: TerminalRequest::Input {
                terminal_id: terminal_id.to_owned(),
                encoding,
                data: data.to_owned(),
            },
        }
    } else {
        ClientStep::Nothing
    }
}

/// What a frame asks for. `value` is what a text stands for, where it is JSON.
pub open spec fn frame_step(
    terminal_id: Seq<char>,
    frame: ClientWebSocketFrame,
    value: Option<JsonView>,
) -> StepView {
    match frame {
        ClientWebSocketFrame::Binary(bytes) => if bytes@.len() == 0 {
            StepView::Nothing
        } else {
            StepView::Ask(
                "terminal-input"@,
                RequestView::Input(
                    terminal_id,
                    TerminalDataEncoding::Base64,
                    base64_of(bytes@),
                ),
            )
        },
        ClientWebSocketFrame::Text(_) => match value {
            Some(v) => control_step(terminal_id, v),
            None => StepView::Nothing,
        },
        ClientWebSocketFrame::Close => StepView::Stop,
        _ => StepView::Nothing,
    }
}

pub fn client_step(terminal_id: &str, frame: &ClientWebSocketFrame, value: Option<&Json>) -> (r:
    ClientStep)
    ensures
        r@ == frame_step(terminal_id@, *frame, crate::json_ops::opt_json_ref(value)),
{
    match frame {
        ClientWebSocketFrame::Binary(bytes) => if bytes.len() == 0 {
            ClientStep::Nothing
        } else {
            ClientStep::Ask {
                label: "terminal-input",
                request: TerminalRequest::Input {
                    terminal_id: terminal_id.to_owned(),
                    encoding: TerminalDataEncoding::Base64,
                    data: base64_encode(bytes.as_slice()),
                },
            }
        },
        ClientWebSocketFrame::Text(_) => match value {
            Some(v) => handle_terminal_control_frame(terminal_id, v),
            None => ClientStep::Nothing,
        },
        ClientWebSocketFrame::Close => ClientStep::Stop,
        _ => ClientStep::Nothing,
    }
}

pub open spec fn closed_message(terminal_id: Seq<char>) -> JsonView {
    JsonView::empty_object().with("type"@, JsonView::Text("terminal.closed"@)).with(
        "terminal_id"@,
        JsonView::Text(terminal_id),
    )
}

/// What a client is told when the terminal says something, and whether that is the end.
pub open spec fn service_step(
    terminal_id: Seq<char>,
    subscriber: Option<u64>,
    response: TerminalResponse,
) -> (Option<JsonView>, bool) {
    match response {
        TerminalResponse::Output { terminal_id: id, subscriber_id, encoding, data } => if id@
            == terminal_id && subscriber_id == subscriber {
            (Some(output_message(terminal_id, encoding, data@)), false)
        } else {
            (None, false)
        },
        TerminalResponse::Detached { terminal_id: id, subscriber_id } => if id@ == terminal_id
            && Some(subscriber_id) == subscriber {
            (Some(closed_message(terminal_id)), true)
        } else {
            (None, false)
        },
        TerminalResponse::Terminal { terminal_id: id, running, .. } => if id@ == terminal_id
            && !running {
            (Some(closed_message(terminal_id)), true)
        } else {
            (None, false)
        },
        TerminalResponse::Error { message } => (Some(failed_message(message@)), false),
        _ => (None, false),
    }
}

fn make_closed(terminal_id: &str) -> (r: Json)
    ensures
        r@ == closed_message(terminal_id@),
{
    let mut p: Json = Json::object();
    p.put("type", Json::text("terminal.closed"));
    p.put("terminal_id", Json::text(terminal_id));
    p
}

pub fn on_terminal_event(
    terminal_id: &str,
    subscriber: Option<u64>,
    response: &TerminalResponse,
) -> (r: (Option<Json>, bool))
    ensures
        (crate::json_ops::opt_json(r.0), r.1) == service_step(terminal_id@, subscriber, *response),
{
    match response {
        TerminalResponse::Output { terminal_id: id, subscriber_id, encoding, data } => {
            let same: bool = match (subscriber_id, subscriber) {
                (Some(a), Some(b)) => *a == b,
                (None, None) => true,
                _ => false,
            };
            if same && text_eq(id.as_str(), terminal_id) {
                (Some(make_output(terminal_id, *encoding, data.as_str())), false)
            } else {
                (None, false)
            }
        },
        TerminalResponse::Detached { terminal_id: id, subscriber_id } => {
            let same: bool = match subscriber {
                Some(b) => *subscriber_id == b,
                None => false,
            };
            if same && text_eq(id.as_str(), terminal_id) {
                (Some(make_closed(terminal_id)), true)
            } else {
                (None, false)
            }
        },
        TerminalResponse::Terminal { terminal_id: id, running, .. } => if !*running && text_eq(
            id.as_str(),
            terminal_id,
        ) {
            (Some(make_closed(terminal_id)), true)
        } else {
            (None, false)
        },
        TerminalResponse::Error { message } => (Some(make_failed(message.as_str())), false),
        _ => (None, false),
    }
}

/// The sign of life that is sent from time to time.
pub fn heartbeat_message(kind: &str, server_time: &str) -> (r: Json)
    ensures
        r@ == JsonView::empty_object().with("type"@, JsonView::Text(kind@)).with(
            "server_time"@,
            JsonView::Text(server_time@),
        ),
{
    let mut p: Json = Json::object();
    p.put("type", Json::text(kind));
    p.put("server_time", Json::text(server_time));
    p
}

/// The value that answers a request about terminals; an error refuses it. `value` is the
/// answer as a value, for answers that are not looked into.
pub fn terminal_http_response(response: TerminalResponse, value: Json) -> (r: Result<
    Json,
    HttpError,
>)
    ensures
        match response {
            TerminalResponse::Terminal { terminal, .. } => r matches Ok(v) && v == terminal,
            TerminalResponse::Error { message } => r matches Err(e) && e.status == 400
                && e.message@ == message@,
            _ => r matches Ok(v) && v == value,
        },
{
    match response {
        TerminalResponse::Terminal { terminal, .. } => Ok(terminal),
        TerminalResponse::Error { message } => Err(HttpError::new(400, message.as_str())),
        _ => Ok(value),
    }
}

/// The value that answers a request for the list of terminals.
pub fn list_terminals_response(response: TerminalResponse, value: Json) -> (r: Result<
    Json,
    HttpError,
>)
    ensures
        match response {
            TerminalResponse::Terminals { terminals } => r matches Ok(v) && v@
                == JsonView::empty_object().with("terminals"@, terminals@),
            TerminalResponse::Error { message } => r matches Err(e) && e.status == 400
                && e.message@ == message@,
            _ => r matches Ok(v) && v == value,
        },
{
    match response {
        TerminalResponse::Terminals { terminals } => {
            let mut p: Json = Json::object();
            p.put("terminals", terminals);
            Ok(p)
        },
        TerminalResponse::Error { message } => Err(HttpError::new(400, message.as_str())),
        _ => Ok(value),
    }
}

} // verus!
