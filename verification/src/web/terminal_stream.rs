//! Connections that show a terminal: what is done when something happens on them.

use vstd::prelude::*;
use vstd::utf8::encode_utf8;
use crate::encoding::{base64_decode, base64_encode, base64_of, base64_read, utf8_bytes};
use crate::json::{group_json, Json, JsonView};
use crate::text::{cat2, opt_view, text_eq};
use crate::web::frame::{ClientWebSocketFrame, OPCODE_BINARY, OPCODE_PING, OPCODE_PONG};
use crate::web::http::HttpError;
use crate::web_terminal::{TerminalCreateRequest, TerminalResizeRequest};

verus! {

broadcast use group_json;

#[derive(Clone, Copy, Debug, PartialEq, Eq, Structural)]
pub enum TerminalDataEncoding {
    Utf8,
    Base64,
}

pub open spec fn encoding_name(e: TerminalDataEncoding) -> Seq<char> {
    match e {
        TerminalDataEncoding::Utf8 => "utf8"@,
        TerminalDataEncoding::Base64 => "base64"@,
    }
}

pub fn encoding_label(e: TerminalDataEncoding) -> (r: &'static str)
    ensures
        r@ == encoding_name(e),
{
    match e {
        TerminalDataEncoding::Utf8 => "utf8",
        TerminalDataEncoding::Base64 => "base64",
    }
}

/// A part of what a terminal wrote.
#[derive(Debug)]
pub struct TerminalChunk {
    pub encoding: TerminalDataEncoding,
    pub data: String,
}

/// What a terminal wrote before a connection joined.
#[derive(Debug)]
pub struct TerminalReplaySnapshot {
    pub terminal_id: String,
    pub requested_offset: u64,
    pub replay_start_offset: u64,
    pub buffer_start_offset: u64,
    pub next_offset: u64,
    pub dropped_bytes: u64,
    pub running: bool,
    pub chunks: Vec<TerminalChunk>,
}

/// What is asked of a terminal.
#[derive(Debug)]
pub enum TerminalRequest {
    List,
    Create { request: TerminalCreateRequest },
    Get { terminal_id: String },
    Terminate { terminal_id: String },
    Attach { terminal_id: String, offset: u64 },
    Replay { terminal_id: String, offset: u64 },
    Input { terminal_id: String, encoding: TerminalDataEncoding, data: String },
    Resize { terminal_id: String, request: TerminalResizeRequest },
    Detach { terminal_id: String, subscriber_id: u64 },
}

/// What a terminal answers. Values that are only passed on stay as they are.
#[derive(Debug)]
pub enum TerminalResponse {
    Terminals { terminals: Json },
    Terminal { terminal_id: String, running: bool, next_offset: u64, terminal: Json },
    Attached { replay: TerminalReplaySnapshot, subscriber_id: Option<u64> },
    Replay { replay: TerminalReplaySnapshot },
    Output {
        terminal_id: String,
        subscriber_id: Option<u64>,
        encoding: TerminalDataEncoding,
        data: String,
    },
    Detached { terminal_id: String, subscriber_id: u64 },
    Error { message: String },
    Other,
}

/// What is asked of a terminal.
pub enum RequestView {
    List,
    Create(Option<Seq<char>>, Option<Seq<char>>, Option<u16>, Option<u16>),
    Get(Seq<char>),
    Terminate(Seq<char>),
    Attach(Seq<char>, u64),
    Replay(Seq<char>, u64),
    Input(Seq<char>, TerminalDataEncoding, Seq<char>),
    Resize(Seq<char>, TerminalResizeRequest),
    Detach(Seq<char>, u64),
}

impl TerminalRequest {
    pub open spec fn view(self) -> RequestView {
        match self {
            TerminalRequest::List => RequestView::List,
            TerminalRequest::Create { request } => RequestView::Create(
                opt_view(request.shell),
                opt_view(request.cwd),
                request.cols,
                request.rows,
            ),
            TerminalRequest::Get { terminal_id } => RequestView::Get(terminal_id@),
            TerminalRequest::Terminate { terminal_id } => RequestView::Terminate(terminal_id@),
            TerminalRequest::Attach { terminal_id, offset } => RequestView::Attach(
                terminal_id@,
                offset,
            ),
            TerminalRequest::Replay { terminal_id, offset } => RequestView::Replay(
                terminal_id@,
                offset,
            ),
            TerminalRequest::Input { terminal_id, encoding, data } => RequestView::Input(
                terminal_id@,
                encoding,
                data@,
            ),
            TerminalRequest::Resize { terminal_id, request } => RequestView::Resize(
                terminal_id@,
                request,
            ),
            TerminalRequest::Detach { terminal_id, subscriber_id } => RequestView::Detach(
                terminal_id@,
                subscriber_id,
            ),
        }
    }
}

// ---------------------------------------------------------------------------
// Answers
// ---------------------------------------------------------------------------
/// Takes an answer; an error refuses the request.
pub fn terminal_answer(response: TerminalResponse) -> (r: Result<TerminalResponse, HttpError>)
    ensures
        match response {
            TerminalResponse::Error { message } => r matches Err(e) && e.status == 400
                && e.message@ == message@,
            _ => r matches Ok(x) && x == response,
        },
{
    match response {
        TerminalResponse::Error { message } => Err(HttpError::new(400, message.as_str())),
        other => Ok(other),
    }
}

fn unexpected_response() -> (e: HttpError)
    ensures
        e.status == 500,
        e.message@ == "unexpected_terminal_response"@,
{
    HttpError::new(500, "unexpected_terminal_response")
}

/// From where on a terminal is shown: from where the client asks, or from the end of its
/// output.
pub fn joining_offset(terminal: &TerminalResponse, asked: Option<u64>) -> (r: Result<u64, HttpError>)
    ensures
        match *terminal {
            TerminalResponse::Terminal { next_offset, .. } => r == Ok::<u64, HttpError>(
                match asked {
                    Some(offset) => offset,
                    None => next_offset,
                },
            ),
            _ => r matches Err(e) && e.status == 500 && e.message@
                == "unexpected_terminal_response"@,
        },
{
    match (terminal, asked) {
        (TerminalResponse::Terminal { .. }, Some(offset)) => Ok(offset),
        (TerminalResponse::Terminal { next_offset, .. }, None) => Ok(*next_offset),
        _ => Err(unexpected_response()),
    }
}

/// What a client gets that has joined a terminal.
pub fn attached_terminal(response: TerminalResponse) -> (r: Result<
    (TerminalReplaySnapshot, Option<u64>),
    HttpError,
>)
    ensures
        match response {
            TerminalResponse::Attached { replay, subscriber_id } => r matches Ok(x) && x.0
                == replay && x.1 == subscriber_id,
            TerminalResponse::Error { message } => r matches Err(e) && e.status == 400
                && e.message@ == message@,
            _ => r matches Err(e) && e.status == 500 && e.message@
                == "unexpected_terminal_response"@,
        },
{
    match response {
        TerminalResponse::Attached { replay, subscriber_id } => Ok((replay, subscriber_id)),
        TerminalResponse::Error { message } => Err(HttpError::new(400, message.as_str())),
        _ => Err(unexpected_response()),
    }
}

// ---------------------------------------------------------------------------
// Data
// ---------------------------------------------------------------------------
/// The bytes that data stand for.
pub open spec fn decoded_data(encoding: TerminalDataEncoding, data: Seq<char>) -> Result<
    Seq<u8>,
    Seq<char>,
> {
    match encoding {
        TerminalDataEncoding::Utf8 => Ok(encode_utf8(data)),
        TerminalDataEncoding::Base64 => match base64_read(data) {
            Ok(bytes) => Ok(bytes),
            Err(e) => Err("failed to decode terminal base64 payload: "@ + e),
        },
    }
}

pub open spec fn data_view(r: Result<Vec<u8>, String>) -> Result<Seq<u8>, Seq<char>> {
    match r {
        Ok(b) => Ok(b@),
        Err(e) => Err(e@),
    }
}

/// Reads data. What was encoded for a terminal is read back.
pub fn decode_terminal_data(encoding: TerminalDataEncoding, data: &str) -> (r: Result<
    Vec<u8>,
    String,
>)
    ensures
        data_view(r) == decoded_data(encoding, data@),
        forall|bytes: Seq<u8>|
            encoding == TerminalDataEncoding::Base64 && data@ == #[trigger] base64_of(bytes)
                ==> r is Ok && r->Ok_0@ == bytes,
{
    match encoding {
        TerminalDataEncoding::Utf8 => Ok(utf8_bytes(data)),
        TerminalDataEncoding::Base64 => match base64_decode(data) {
            Ok(bytes) => Ok(bytes),
            Err(e) => Err(cat2("failed to decode terminal base64 payload: ", e.as_str())),
        },
    }
}

// ---------------------------------------------------------------------------
// Messages of a client
// ---------------------------------------------------------------------------
/// A control message of a client.
#[derive(Debug)]
pub struct TerminalWebSocketControl {
    pub kind: String,
    pub offset: Option<u64>,
    pub cols: Option<u16>,
    pub rows: Option<u16>,
}

/// Something that a client does.
#[derive(Debug)]
pub enum TerminalWebSocketEvent {
    Input(Vec<u8>),
    Resize(TerminalResizeRequest),
    Attach(u64),
    JsonPing,
    WsPing(Vec<u8>),
    Close,
    Error(String),
}

pub enum ClientView {
    Input(Seq<u8>),
    Resize(TerminalResizeRequest),
    Attach(u64),
    JsonPing,
    WsPing(Seq<u8>),
    Close,
    Error(Seq<char>),
}

impl TerminalWebSocketEvent {
    pub open spec fn view(self) -> ClientView {
        match self {
            TerminalWebSocketEvent::Input(b) => ClientView::Input(b@),
            TerminalWebSocketEvent::Resize(r) => ClientView::Resize(r),
            TerminalWebSocketEvent::Attach(o) => ClientView::Attach(o),
            TerminalWebSocketEvent::JsonPing => ClientView::JsonPing,
            TerminalWebSocketEvent::WsPing(b) => ClientView::WsPing(b@),
            TerminalWebSocketEvent::Close => ClientView::Close,
            TerminalWebSocketEvent::Error(m) => ClientView::Error(m@),
        }
    }
}

/// What a control message asks for; `None` is a message that could not be read.
pub open spec fn control_event(control: Option<TerminalWebSocketControl>) -> Result<
    ClientView,
    Seq<char>,
> {
    match control {
        None => Err("failed to parse terminal websocket control message"@),
        Some(c) => if c.kind@ == "resize"@ {
            match (c.cols, c.rows) {
                (None, _) => Err("terminal resize control is missing cols"@),
                (_, None) => Err("terminal resize control is missing rows"@),
                (Some(cols), Some(rows)) => Ok(
                    ClientView::Resize(TerminalResizeRequest { cols, rows }),
                ),
            }
        } else if c.kind@ == "attach"@ {
            Ok(
                ClientView::Attach(
                    match c.offset {
                        Some(o) => o,
                        None => 0,
                    },
                ),
            )
        } else if c.kind@ == "ping"@ {
            Ok(ClientView::JsonPing)
        } else {
            Err("unsupported terminal websocket control type "@ + c.kind@)
        },
    }
}

pub fn parse_terminal_websocket_control(control: Option<&TerminalWebSocketControl>) -> (r: Result<
    TerminalWebSocketEvent,
    String,
>)
    ensures
        match (
            r,
            control_event(
                match control {
                    Some(c) => Some(*c),
                    None => None,
                },
            ),
        ) {
            (Ok(a), Ok(b)) => a@ == b,
            (Err(a), Err(b)) => a@ == b,
            _ => false,
        },
{
    let c: &TerminalWebSocketControl = match control {
        Some(c) => c,
        None => {
            return Err("failed to parse terminal websocket control message".to_owned());
        },
    };
    let kind: &str = c.kind.as_str();
    proof {
        reveal_strlit("resize");
        reveal_strlit("attach");
        reveal_strlit("ping");
        assert("resize"@[0] != "attach"@[0]);
    }
    if text_eq(kind, "resize") {
        let cols: u16 = match c.cols {
            Some(n) => n,
            None => {
                return Err("terminal resize control is missing cols".to_owned());
            },
        };
        let rows: u16 = match c.rows {
            Some(n) => n,
            None => {
                return Err("terminal resize control is missing rows".to_owned());
            },
        };
        Ok(TerminalWebSocketEvent::Resize(TerminalResizeRequest { cols, rows }))
    } else if text_eq(kind, "attach") {
        let offset: u64 = match c.offset {
            Some(o) => o,
            None => 0,
        };
        Ok(TerminalWebSocketEvent::Attach(offset))
    } else if text_eq(kind, "ping") {
        Ok(TerminalWebSocketEvent::JsonPing)
    } else {
        Err(cat2("unsupported terminal websocket control type ", kind))
    }
}

/// What a frame of a client means: nothing for a sign of life. `control` is the control
/// message in a text, where it could be read; a frame that could not be read ends the
/// connection.
pub fn client_event(
    frame: Option<ClientWebSocketFrame>,
    control: Option<&TerminalWebSocketControl>,
) -> (r: Option<TerminalWebSocketEvent>)
    ensures
        match frame {
            None => r matches Some(e) && e@ == ClientView::Close,
            Some(ClientWebSocketFrame::Close) => r matches Some(e) && e@ == ClientView::Close,
            Some(ClientWebSocketFrame::Pong) => r is None,
            Some(ClientWebSocketFrame::Ping(b)) => r matches Some(e) && e@ == ClientView::WsPing(
                b@,
            ),
            Some(ClientWebSocketFrame::Binary(b)) => r matches Some(e) && e@ == ClientView::Input(
                b@,
            ),
            Some(ClientWebSocketFrame::Text(_)) => r matches Some(e) && e@ == match control_event(
                match control {
                    Some(c) => Some(*c),
                    None => None,
                },
            ) {
                Ok(v) => v,
                Err(m) => ClientView::Error(m),
            },
        },
{
    match frame {
        None => Some(TerminalWebSocketEvent::Close),
        Some(ClientWebSocketFrame::Close) => Some(TerminalWebSocketEvent::Close),
        Some(ClientWebSocketFrame::Pong) => None,
        Some(ClientWebSocketFrame::Ping(b)) => Some(TerminalWebSocketEvent::WsPing(b)),
        Some(ClientWebSocketFrame::Binary(b)) => Some(TerminalWebSocketEvent::Input(b)),
        Some(ClientWebSocketFrame::Text(_)) => match parse_terminal_websocket_control(control) {
            Ok(e) => Some(e),
            Err(m) => Some(TerminalWebSocketEvent::Error(m)),
        },
    }
}

// ---------------------------------------------------------------------------
// Actions
// ---------------------------------------------------------------------------
/// What is done on a connection.
#[derive(Debug)]
pub enum StreamAction {
    /// A message is written. Where it has to arrive and cannot be written, the
    /// connection ends.
    Message { payload: Json, has_to_arrive: bool },
    /// A frame is written; where that fails the connection ends.
    Frame { opcode: u8, payload: Vec<u8> },
    /// The terminal is asked for something; `label` begins the id of the request.
    Ask { label: &'static str, request: TerminalRequest },
    /// The answer to the last request is waited for.
    AwaitReplay,
    /// The client is told that the connection ends. Where it has to arrive and cannot be
    /// written, the connection ends with an error.
    Close { has_to_arrive: bool },
    /// The connection ends.
    End,
    /// The connection ends with an error.
    Fail(String),
}

pub enum ActionView {
    Message(JsonView, bool),
    Frame(u8, Seq<u8>),
    Ask(Seq<char>, RequestView),
    AwaitReplay,
    Close(bool),
    End,
    Fail(Seq<char>),
}

impl StreamAction {
    pub open spec fn view(self) -> ActionView {
        match self {
            StreamAction::Message { payload, has_to_arrive } => ActionView::Message(
                payload@,
                has_to_arrive,
            ),
            StreamAction::Frame { opcode, payload } => ActionView::Frame(opcode, payload@),
            StreamAction::Ask { label, request } => ActionView::Ask(label@, request@),
            StreamAction::AwaitReplay => ActionView::AwaitReplay,
            StreamAction::Close { has_to_arrive } => ActionView::Close(has_to_arrive),
            StreamAction::End => ActionView::End,
            StreamAction::Fail(m) => ActionView::Fail(m@),
        }
    }
}

pub open spec fn action_views(s: Seq<StreamAction>) -> Seq<ActionView> {
    s.map_values(|a: StreamAction| a@)
}

fn add_action(r: &mut Vec<StreamAction>, action: StreamAction)
    ensures
        action_views(final(r)@) == action_views(old(r)@).push(action@),
{
    let ghost before = r@;
    r.push(action);
    assert(action_views(r@) =~= action_views(before).push(action@));
}

pub open spec fn error_message(code: Seq<char>, message: Seq<char>) -> JsonView {
    JsonView::empty_object().with("type"@, JsonView::Text("error"@)).with(
        "error"@,
        JsonView::Text(code),
    ).with("message"@, JsonView::Text(message))
}

fn make_error(code: &str, message: &str) -> (r: Json)
    ensures
        r@ == error_message(code@, message@),
{
    let mut p: Json = Json::object();
    p.put("type", Json::text("error"));
    p.put("error", Json::text(code));
    p.put("message", Json::text(message));
    p
}

/// An error that ends the connection.
pub open spec fn fatal(code: Seq<char>, message: Seq<char>) -> Seq<ActionView> {
    seq![
        ActionView::Message(error_message(code, message), false),
        ActionView::Close(false),
        ActionView::End,
    ]
}

fn end_with_error(code: &str, message: &str) -> (r: Vec<StreamAction>)
    ensures
        action_views(r@) == fatal(code@, message@),
{
    let payload: Json = make_error(code, message);
    let r: Vec<StreamAction> = vec![
        StreamAction::Message { payload, has_to_arrive: false },
        StreamAction::Close { has_to_arrive: false },
        StreamAction::End,
    ];
    assert(action_views(r@) =~= fatal(code@, message@));
    r
}

// ---------------------------------------------------------------------------
// Joining
// ---------------------------------------------------------------------------
pub open spec fn attached_message(r: TerminalReplaySnapshot) -> JsonView {
    JsonView::empty_object().with("type"@, JsonView::Text("attached"@)).with(
        "terminal_id"@,
        JsonView::Text(r.terminal_id@),
    ).with("offset"@, JsonView::number(r.requested_offset as nat)).with(
        "replay_start_offset"@,
        JsonView::number(r.replay_start_offset as nat),
    ).with("buffer_start_offset"@, JsonView::number(r.buffer_start_offset as nat)).with(
        "next_offset"@,
        JsonView::number(r.next_offset as nat),
    ).with("running"@, JsonView::Bool(r.running))
}

pub open spec fn dropped_message(r: TerminalReplaySnapshot) -> JsonView {
    JsonView::empty_object().with("type"@, JsonView::Text("dropped"@)).with(
        "terminal_id"@,
        JsonView::Text(r.terminal_id@),
    ).with("buffer_start_offset"@, JsonView::number(r.buffer_start_offset as nat)).with(
        "dropped_bytes"@,
        JsonView::number(r.dropped_bytes as nat),
    )
}

/// The frames of the chunks from an index on. A chunk that cannot be read ends the
/// connection.
pub open spec fn chunk_frames(chunks: Seq<TerminalChunk>, i: int) -> Seq<ActionView>
    decreases chunks.len() - i,
{
    if i < 0 || i >= chunks.len() {
        Seq::empty()
    } else {
        match decoded_data(chunks[i].encoding, chunks[i].data@) {
            Ok(bytes) => seq![ActionView::Frame(OPCODE_BINARY, bytes)] + chunk_frames(
                chunks,
                i + 1,
            ),
            Err(e) => seq![ActionView::Fail(e)],
        }
    }
}

/// What a client is told when it joins: where it joins, what it missed, and what the
/// terminal wrote.
pub open spec fn replay_actions(r: TerminalReplaySnapshot) -> Seq<ActionView> {
    seq![ActionView::Message(attached_message(r), true)] + (if r.dropped_bytes > 0 {
        seq![ActionView::Message(dropped_message(r), true)]
    } else {
        Seq::empty()
    }) + chunk_frames(r.chunks@, 0)
}

pub fn write_terminal_replay(replay: &TerminalReplaySnapshot) -> (r: Vec<StreamAction>)
    ensures
        action_views(r@) == replay_actions(*replay),
{
    let mut attached: Json = Json::object();
    attached.put("type", Json::text("attached"));
    attached.put("terminal_id", Json::text(replay.terminal_id.as_str()));
    attached.put("offset", Json::number(replay.requested_offset));
    attached.put("replay_start_offset", Json::number(replay.replay_start_offset));
    attached.put("buffer_start_offset", Json::number(replay.buffer_start_offset));
    attached.put("next_offset", Json::number(replay.next_offset));
    attached.put("running", Json::Bool(replay.running));
    let mut r: Vec<StreamAction> = Vec::new();
    assert(action_views(r@) =~= Seq::empty());
    add_action(&mut r, StreamAction::Message { payload: attached, has_to_arrive: true });
    if replay.dropped_bytes > 0 {
        let mut dropped: Json = Json::object();
        dropped.put("type", Json::text("dropped"));
        dropped.put("terminal_id", Json::text(replay.terminal_id.as_str()));
        dropped.put("buffer_start_offset", Json::number(replay.buffer_start_offset));
        dropped.put("dropped_bytes", Json::number(replay.dropped_bytes));
        add_action(&mut r, StreamAction::Message { payload: dropped, has_to_arrive: true });
    }
    assert(action_views(r@) + chunk_frames(replay.chunks@, 0) =~= replay_actions(*replay));
    let mut i: usize = 0;
    while i < replay.chunks.len()
        invariant
            i <= replay.chunks@.len(),
            action_views(r@) + chunk_frames(replay.chunks@, i as int) == replay_actions(*replay),
        decreases replay.chunks@.len() - i,
    {
        let ghost before = action_views(r@);
        match decode_terminal_data(replay.chunks[i].encoding, replay.chunks[i].data.as_str()) {
            Ok(bytes) => {
                add_action(&mut r, StreamAction::Frame { opcode: OPCODE_BINARY, payload: bytes });
                assert(action_views(r@) + chunk_frames(replay.chunks@, i + 1) =~= before
                    + chunk_frames(replay.chunks@, i as int));
            },
            Err(e) => {
                add_action(&mut r, StreamAction::Fail(e));
                assert(action_views(r@) =~= before + chunk_frames(replay.chunks@, i as int));
                return r;
            },
        }
        i += 1;
    }
    assert(action_views(r@) + Seq::empty() =~= action_views(r@));
    r
}

/// What happens on a connection to a terminal.
#[derive(Debug)]
pub struct TerminalStream {
    pub terminal_id: String,
    pub subscriber_id: Option<u64>,
}

pub open spec fn exit_message(terminal_id: Seq<char>) -> JsonView {
    JsonView::empty_object().with("type"@, JsonView::Text("exit"@)).with(
        "terminal_id"@,
        JsonView::Text(terminal_id),
    )
}

/// Whether the last action is that the connection fails.
pub open spec fn has_failed(s: Seq<ActionView>) -> bool {
    s.len() > 0 && s.last() is Fail
}

impl TerminalStream {
    /// What is done when a client joins.
    pub open spec fn start_actions(self, replay: TerminalReplaySnapshot) -> Seq<ActionView> {
        let r = replay_actions(replay);
        if replay.running || has_failed(r) {
            r
        } else {
            r + seq![
                ActionView::Message(exit_message(self.terminal_id@), true),
                ActionView::Close(true),
                ActionView::End,
            ]
        }
    }

    pub fn start(&self, replay: &TerminalReplaySnapshot) -> (r: Vec<StreamAction>)
        ensures
            action_views(r@) == self.start_actions(*replay),
    {
        let mut r: Vec<StreamAction> = write_terminal_replay(replay);
        let ghost first = action_views(r@);
        assert(first.len() == r@.len());
        assert(r@.len() > 0 ==> first.last() == r@[r@.len() - 1]@);
        let failed: bool = r.len() > 0 && match &r[r.len() - 1] {
            StreamAction::Fail(_) => true,
            _ => false,
        };
        if !replay.running && !failed {
            let mut exit: Json = Json::object();
            exit.put("type", Json::text("exit"));
            exit.put("terminal_id", Json::text(self.terminal_id.as_str()));
            add_action(&mut r, StreamAction::Message { payload: exit, has_to_arrive: true });
            add_action(&mut r, StreamAction::Close { has_to_arrive: true });
            add_action(&mut r, StreamAction::End);
            assert(action_views(r@) =~= self.start_actions(*replay));
        }
        r
    }

    /// What is done about output that was read.
    pub open spec fn output_actions(decoded: Result<Seq<u8>, Seq<char>>) -> Seq<ActionView> {
        match decoded {
            Ok(bytes) => seq![ActionView::Frame(OPCODE_BINARY, bytes)],
            Err(e) => seq![ActionView::Message(error_message("invalid_terminal_output"@, e), false)],
        }
    }

    pub fn show_output(decoded: Result<Vec<u8>, String>) -> (r: Vec<StreamAction>)
        ensures
            action_views(r@) == Self::output_actions(data_view(decoded)),
    {
        let ghost expected = Self::output_actions(data_view(decoded));
        let r: Vec<StreamAction> = match decoded {
            Ok(bytes) => vec![StreamAction::Frame { opcode: OPCODE_BINARY, payload: bytes }],
            Err(e) => vec![
                StreamAction::Message {
                    payload: make_error("invalid_terminal_output", e.as_str()),
                    has_to_arrive: false,
                },
            ],
        };
        assert(action_views(r@) =~= expected);
        r
    }

    /// What is done when the terminal says something: its output for this connection is
    /// shown. `None` says that the terminal is gone.
    pub open spec fn service_actions(self, response: Option<TerminalResponse>) -> Seq<ActionView> {
        match response {
            None => seq![ActionView::Close(false), ActionView::End],
            Some(TerminalResponse::Output { terminal_id, subscriber_id, encoding, data }) => if terminal_id@
                == self.terminal_id@ && subscriber_id == self.subscriber_id {
                Self::output_actions(decoded_data(encoding, data@))
            } else {
                Seq::empty()
            },
            Some(_) => Seq::empty(),
        }
    }

    pub fn on_service(&self, response: Option<&TerminalResponse>) -> (r: Vec<StreamAction>)
        ensures
            action_views(r@) == self.service_actions(
                match response {
                    Some(x) => Some(*x),
                    None => None,
                },
            ),
    {
        match response {
            None => {
                let r: Vec<StreamAction> = vec![StreamAction::Close { has_to_arrive: false }, StreamAction::End];
                assert(action_views(r@) =~= seq![ActionView::Close(false), ActionView::End]);
                r
            },
            Some(TerminalResponse::Output { terminal_id, subscriber_id, encoding, data }) => {
                let same: bool = match (subscriber_id, &self.subscriber_id) {
                    (Some(a), Some(b)) => *a == *b,
                    (None, None) => true,
                    _ => false,
                };
                if same && text_eq(terminal_id.as_str(), self.terminal_id.as_str()) {
                    Self::show_output(decode_terminal_data(*encoding, data.as_str()))
                } else {
                    let r: Vec<StreamAction> = Vec::new();
                    assert(action_views(r@) =~= Seq::empty());
                    r
                }
            },
            Some(_) => {
                let r: Vec<StreamAction> = Vec::new();
                assert(action_views(r@) =~= Seq::empty());
                r
            },
        }
    }

    /// What is done when the client does something.
    pub open spec fn client_actions(self, event: ClientView) -> Seq<ActionView> {
        match event {
            ClientView::Input(bytes) => seq![
                ActionView::Ask(
                    "terminal-input"@,
                    RequestView::Input(
                        self.terminal_id@,
                        TerminalDataEncoding::Base64,
                        base64_of(bytes),
                    ),
                ),
            ],
            ClientView::Resize(request) => seq![
                ActionView::Ask(
                    "terminal-resize"@,
                    RequestView::Resize(self.terminal_id@, request),
                ),
            ],
            ClientView::Attach(offset) => seq![
                ActionView::Ask(
                    "terminal-replay"@,
                    RequestView::Replay(self.terminal_id@, offset),
                ),
                ActionView::AwaitReplay,
            ],
            ClientView::JsonPing => seq![
                ActionView::Message(
                    JsonView::empty_object().with("type"@, JsonView::Text("pong"@)),
                    true,
                ),
            ],
            ClientView::WsPing(payload) => seq![ActionView::Frame(OPCODE_PONG, payload)],
            ClientView::Close => seq![ActionView::Close(false), ActionView::End],
            ClientView::Error(message) => seq![
                ActionView::Message(
                    error_message("invalid_terminal_stream_frame"@, message),
                    false,
                ),
            ],
        }
    }

    pub fn on_client(&self, event: TerminalWebSocketEvent) -> (r: Vec<StreamAction>)
        ensures
            action_views(r@) == self.client_actions(event@),
    {
        let ghost expected = self.client_actions(event@);
        let terminal_id: String = self.terminal_id.clone();
        let r: Vec<StreamAction> = match event {
            TerminalWebSocketEvent::Input(bytes) => vec![
                StreamAction::Ask {
                    label: "terminal-input",
                    request: TerminalRequest::Input {
                        terminal_id,
                        encoding: TerminalDataEncoding::Base64,
                        data: base64_encode(bytes.as_slice()),
                    },
                },
            ],
            TerminalWebSocketEvent::Resize(request) => vec![
                StreamAction::Ask {
                    label: "terminal-resize",
                    request: TerminalRequest::Resize { terminal_id, request },
                },
            ],
            TerminalWebSocketEvent::Attach(offset) => vec![
                StreamAction::Ask {
                    label: "terminal-replay",
                    request: TerminalRequest::Replay { terminal_id, offset },
                },
                StreamAction::AwaitReplay,
            ],
            TerminalWebSocketEvent::JsonPing => {
                let mut pong: Json = Json::object();
                pong.put("type", Json::text("pong"));
                vec![StreamAction::Message { payload: pong, has_to_arrive: true }]
            },
            TerminalWebSocketEvent::WsPing(payload) => vec![
                StreamAction::Frame { opcode: OPCODE_PONG, payload },
            ],
            TerminalWebSocketEvent::Close => vec![StreamAction::Close { has_to_arrive: false }, StreamAction::End],
            TerminalWebSocketEvent::Error(message) => vec![
                StreamAction::Message {
                    payload: make_error("invalid_terminal_stream_frame", message.as_str()),
                    has_to_arrive: false,
                },
            ],
        };
        assert(action_views(r@) =~= expected);
        r
    }

    /// The code of the error that tells of a request that failed.
    pub open spec fn failure_code(request: RequestView) -> Seq<char> {
        match request {
            RequestView::Input(..) => "terminal_input_failed"@,
            RequestView::Resize(..) => "terminal_resize_failed"@,
            _ => "terminal_replay_failed"@,
        }
    }

    /// What is done when a request cannot be made.
    pub fn on_request_failed(&self, request: &TerminalRequest, message: &str) -> (r: Vec<
        StreamAction,
    >)
        ensures
            action_views(r@) == fatal(Self::failure_code(request@), message@),
    {
        let code: &str = match request {
            TerminalRequest::Input { .. } => "terminal_input_failed",
            TerminalRequest::Resize { .. } => "terminal_resize_failed",
            _ => "terminal_replay_failed",
        };
        end_with_error(code, message)
    }

    /// What is done with the answer to the request for what the terminal wrote.
    pub open spec fn answer_actions(answer: Result<TerminalResponse, HttpError>) -> Seq<ActionView> {
        match answer {
            Ok(TerminalResponse::Replay { replay }) => replay_actions(replay),
            Ok(TerminalResponse::Error { message }) => fatal(
                "terminal_replay_failed"@,
                message@,
            ),
            Ok(_) => Seq::empty(),
            Err(e) => fatal("terminal_replay_failed"@, e.message@),
        }
    }

    pub fn on_replay(&self, answer: &Result<TerminalResponse, HttpError>) -> (r: Vec<StreamAction>)
        ensures
            action_views(r@) == Self::answer_actions(*answer),
    {
        match answer {
            Ok(TerminalResponse::Replay { replay }) => write_terminal_replay(replay),
            Ok(TerminalResponse::Error { message }) => end_with_error(
                "terminal_replay_failed",
                message.as_str(),
            ),
            Ok(_) => {
                let r: Vec<StreamAction> = Vec::new();
                assert(action_views(r@) =~= Seq::empty());
                r
            },
            Err(e) => end_with_error("terminal_replay_failed", e.message.as_str()),
        }
    }

    /// The sign of life that is sent from time to time.
    pub fn on_heartbeat(&self) -> (r: Vec<StreamAction>)
        ensures
            action_views(r@) == seq![ActionView::Frame(OPCODE_PING, Seq::empty())],
    {
        let r: Vec<StreamAction> = vec![
            StreamAction::Frame { opcode: OPCODE_PING, payload: Vec::new() },
        ];
        assert(r@[0]@->Frame_1 =~= Seq::<u8>::empty());
        assert(action_views(r@) =~= seq![ActionView::Frame(OPCODE_PING, Seq::empty())]);
        r
    }

    /// What is asked when the connection has ended.
    pub fn finish(&self) -> (r: Option<TerminalRequest>)
        ensures
            match self.subscriber_id {
                Some(id) => r matches Some(q) && q@ == RequestView::Detach(self.terminal_id@, id),
                None => r is None,
            },
    {
        match self.subscriber_id {
            Some(subscriber_id) => Some(
                TerminalRequest::Detach { terminal_id: self.terminal_id.clone(), subscriber_id },
            ),
            None => None,
        }
    }
}

// ---------------------------------------------------------------------------
// Laws
// ---------------------------------------------------------------------------
/// An end stands nowhere but at the end.
pub open spec fn ends_last(s: Seq<ActionView>) -> bool {
    forall|i: int|
        0 <= i < s.len() - 1 ==> !((#[trigger] s[i]) is End) && !(s[i] is Fail)
}

proof fn lemma_chunk_frames_end_last(chunks: Seq<TerminalChunk>, i: int)
    requires
        0 <= i,
    ensures
        ends_last(chunk_frames(chunks, i)),
        forall|k: int|
            0 <= k < chunk_frames(chunks, i).len() ==> !((#[trigger] chunk_frames(chunks, i)[k])
                is End),
    decreases chunks.len() - i,
{
    if i < chunks.len() {
        lemma_chunk_frames_end_last(chunks, i + 1);
        let rest = chunk_frames(chunks, i + 1);
        let all = chunk_frames(chunks, i);
        assert forall|k: int| 0 <= k < all.len() - 1 implies !((#[trigger] all[k]) is End) && !(
        all[k] is Fail) by {
            if k > 0 {
                assert(all[k] == rest[k - 1]);
            }
        }
        assert forall|k: int| 0 <= k < all.len() implies !((#[trigger] all[k]) is End) by {
            if k > 0 && decoded_data(chunks[i].encoding, chunks[i].data@) is Ok {
                assert(all[k] == rest[k - 1]);
            }
        }
    }
}

proof fn lemma_replay_ends_last(r: TerminalReplaySnapshot)
    ensures
        ends_last(replay_actions(r)),
{
    lemma_chunk_frames_end_last(r.chunks@, 0);
    let frames = chunk_frames(r.chunks@, 0);
    let all = replay_actions(r);
    let n = all.len() - frames.len();
    assert forall|k: int| 0 <= k < all.len() - 1 implies !((#[trigger] all[k]) is End) && !(all[k]
        is Fail) by {
        if k >= n {
            assert(all[k] == frames[k - n]);
        }
    }
}

/// Whatever happens on a connection, nothing is done after its end.
pub proof fn nothing_follows_the_end(
    stream: TerminalStream,
    replay: TerminalReplaySnapshot,
    response: Option<TerminalResponse>,
    event: ClientView,
    answer: Result<TerminalResponse, HttpError>,
)
    ensures
        ends_last(stream.start_actions(replay)),
        ends_last(stream.service_actions(response)),
        ends_last(stream.client_actions(event)),
        ends_last(TerminalStream::answer_actions(answer)),
{
    lemma_replay_ends_last(replay);
    if let Ok(TerminalResponse::Replay { replay: other }) = answer {
        lemma_replay_ends_last(other);
    }
    let r = replay_actions(replay);
    let all = stream.start_actions(replay);
    lemma_chunk_frames_end_last(replay.chunks@, 0);
    assert forall|k: int| 0 <= k < all.len() - 1 implies !((#[trigger] all[k]) is End) && !(all[k]
        is Fail) by {
        if k < r.len() {
            assert(all[k] == r[k]);
            if k == r.len() - 1 {
                let frames = chunk_frames(replay.chunks@, 0);
                if frames.len() > 0 {
                    assert(r[k] == frames[frames.len() - 1]);
                }
            }
        }
    }
}

} // verus!
