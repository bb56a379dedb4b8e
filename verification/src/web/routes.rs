//! Which request asks for what.

use vstd::prelude::*;
use crate::text::{starts_with, text_eq, views};
use crate::web::http::{
    authorized, authorized_by_header, authorized_by_query, header_authorizes, HttpError,
    HttpRequest,
};
use crate::web::url::{api_segments, interface_segments, segments, split_path};

verus! {

/// What a request asks for.
#[derive(Clone, Copy, Debug, PartialEq, Eq, Structural)]
pub enum RouteKind {
    Health,
    ListModels,
    ListConversations,
    CreateConversation,
    RenameConversation,
    DeleteConversation,
    MarkSeen,
    ListMessages,
    MessageDetail,
    PostMessage,
    ListSessions,
    CreateSession,
    RenameSession,
    DeleteSession,
    ListSessionMessages,
    SessionMessageDetail,
    PostSessionMessage,
    Status,
    ListWorkspace,
    ReadWorkspaceFile,
    DeleteWorkspacePath,
    MoveWorkspacePath,
    UploadWorkspaceArchive,
    DownloadWorkspaceArchive,
    ListTerminals,
    CreateTerminal,
    GetTerminal,
    TerminateTerminal,
}

/// What a request asks for, and the ids in its path from left to right.
#[derive(Debug)]
pub struct Route {
    pub kind: RouteKind,
    pub ids: Vec<String>,
}

pub open spec fn opt_route(r: Option<Route>) -> Option<(RouteKind, Seq<Seq<char>>)> {
    match r {
        Some(route) => Some((route.kind, views(route.ids@))),
        None => None,
    }
}

// ---------------------------------------------------------------------------
// Requests that all interfaces know
// ---------------------------------------------------------------------------
/// What is asked of a conversation as a whole.
pub open spec fn conversation_route(method: Seq<char>, s: Seq<Seq<char>>) -> Option<RouteKind> {
    if s.len() == 2 {
        if method == "PATCH"@ {
            Some(RouteKind::RenameConversation)
        } else if method == "DELETE"@ {
            Some(RouteKind::DeleteConversation)
        } else {
            None
        }
    } else if s.len() == 3 && s[2] == "seen"@ && method == "POST"@ {
        Some(RouteKind::MarkSeen)
    } else if s.len() == 3 && s[2] == "status"@ && method == "GET"@ {
        Some(RouteKind::Status)
    } else {
        None
    }
}

/// What is asked of the files of a conversation.
pub open spec fn workspace_route(method: Seq<char>, s: Seq<Seq<char>>) -> Option<RouteKind> {
    if s.len() == 3 {
        if method == "GET"@ {
            Some(RouteKind::ListWorkspace)
        } else if method == "DELETE"@ {
            Some(RouteKind::DeleteWorkspacePath)
        } else if method == "PATCH"@ {
            Some(RouteKind::MoveWorkspacePath)
        } else {
            None
        }
    } else if s.len() == 4 {
        if s[3] == "file"@ && method == "GET"@ {
            Some(RouteKind::ReadWorkspaceFile)
        } else if s[3] == "upload"@ && method == "POST"@ {
            Some(RouteKind::UploadWorkspaceArchive)
        } else if s[3] == "download"@ && method == "GET"@ {
            Some(RouteKind::DownloadWorkspaceArchive)
        } else {
            None
        }
    } else {
        None
    }
}

/// What is asked of the terminals of a conversation.
pub open spec fn terminal_route(method: Seq<char>, s: Seq<Seq<char>>) -> Option<RouteKind> {
    if s.len() == 3 {
        if method == "GET"@ {
            Some(RouteKind::ListTerminals)
        } else if method == "POST"@ {
            Some(RouteKind::CreateTerminal)
        } else {
            None
        }
    } else if s.len() == 4 {
        if method == "GET"@ {
            Some(RouteKind::GetTerminal)
        } else if method == "DELETE"@ {
            Some(RouteKind::TerminateTerminal)
        } else {
            None
        }
    } else {
        None
    }
}

/// What is asked of the messages of a conversation, where it has one session.
pub open spec fn message_route(method: Seq<char>, s: Seq<Seq<char>>) -> Option<RouteKind> {
    if s.len() == 3 && method == "GET"@ {
        Some(RouteKind::ListMessages)
    } else if s.len() == 3 && method == "POST"@ {
        Some(RouteKind::PostMessage)
    } else if s.len() == 4 && method == "GET"@ {
        Some(RouteKind::MessageDetail)
    } else {
        None
    }
}

/// What is asked of the sessions of a conversation.
pub open spec fn session_route(method: Seq<char>, s: Seq<Seq<char>>) -> Option<RouteKind> {
    if s.len() == 3 {
        if method == "GET"@ {
            Some(RouteKind::ListSessions)
        } else if method == "POST"@ {
            Some(RouteKind::CreateSession)
        } else {
            None
        }
    } else if s.len() == 4 {
        if method == "PATCH"@ {
            Some(RouteKind::RenameSession)
        } else if method == "DELETE"@ {
            Some(RouteKind::DeleteSession)
        } else {
            None
        }
    } else if s.len() == 5 && s[4] == "messages"@ {
        if method == "GET"@ {
            Some(RouteKind::ListSessionMessages)
        } else if method == "POST"@ {
            Some(RouteKind::PostSessionMessage)
        } else {
            None
        }
    } else if s.len() == 6 && s[4] == "messages"@ && method == "GET"@ {
        Some(RouteKind::SessionMessageDetail)
    } else {
        None
    }
}

/// The ids in a path: the conversation, what is addressed in it, and a message.
pub open spec fn ids_of(kind: RouteKind, s: Seq<Seq<char>>) -> Seq<Seq<char>> {
    match kind {
        RouteKind::Health => Seq::empty(),
        RouteKind::ListModels => Seq::empty(),
        RouteKind::ListConversations => Seq::empty(),
        RouteKind::CreateConversation => Seq::empty(),
        RouteKind::MessageDetail => seq![s[1], s[3]],
        RouteKind::GetTerminal => seq![s[1], s[3]],
        RouteKind::TerminateTerminal => seq![s[1], s[3]],
        RouteKind::RenameSession => seq![s[1], s[3]],
        RouteKind::DeleteSession => seq![s[1], s[3]],
        RouteKind::ListSessionMessages => seq![s[1], s[3]],
        RouteKind::PostSessionMessage => seq![s[1], s[3]],
        RouteKind::SessionMessageDetail => seq![s[1], s[3], s[5]],
        _ => seq![s[1]],
    }
}

/// The kind of a request by the segments behind `api`. Where a conversation can have
/// several sessions, messages belong to a session.
pub open spec fn kind_of(method: Seq<char>, s: Seq<Seq<char>>, sessions: bool) -> Option<RouteKind> {
    if s.len() == 0 {
        None
    } else if s.len() == 1 {
        if s[0] == "models"@ && method == "GET"@ {
            Some(RouteKind::ListModels)
        } else if s[0] == "health"@ && method == "GET"@ && sessions {
            Some(RouteKind::Health)
        } else if s[0] == "conversations"@ && method == "GET"@ {
            Some(RouteKind::ListConversations)
        } else if s[0] == "conversations"@ && method == "POST"@ {
            Some(RouteKind::CreateConversation)
        } else {
            None
        }
    } else if s[0] != "conversations"@ {
        None
    } else if s.len() == 2 || s[2] == "seen"@ || s[2] == "status"@ {
        conversation_route(method, s)
    } else if s[2] == "workspace"@ {
        workspace_route(method, s)
    } else if s[2] == "terminals"@ {
        terminal_route(method, s)
    } else if s[2] == "foreground_sessions"@ {
        match session_route(method, s) {
            Some(kind) => if sessions || kind == RouteKind::PostSessionMessage {
                Some(kind)
            } else {
                None
            },
            None => None,
        }
    } else if s[2] == "messages"@ && !sessions {
        message_route(method, s)
    } else {
        None
    }
}

pub open spec fn route_of(method: Seq<char>, s: Seq<Seq<char>>, sessions: bool) -> Option<
    (RouteKind, Seq<Seq<char>>),
> {
    match kind_of(method, s, sessions) {
        Some(kind) => Some((kind, ids_of(kind, s))),
        None => None,
    }
}

// ---------------------------------------------------------------------------
// Finding a route
// ---------------------------------------------------------------------------
fn find_kind(method: &str, s: &Vec<String>, sessions: bool) -> (r: Option<RouteKind>)
    ensures
        r == kind_of(method@, views(s@), sessions),
{
    let n: usize = s.len();
    assert(views(s@).len() == n);
    let get: bool = text_eq(method, "GET");
    let post: bool = text_eq(method, "POST");
    let patch: bool = text_eq(method, "PATCH");
    let delete: bool = text_eq(method, "DELETE");
    proof {
        reveal_strlit("GET");
        reveal_strlit("POST");
        reveal_strlit("PATCH");
        reveal_strlit("DELETE");
        assert("GET"@.len() != "POST"@.len());
    }
    if n == 0 {
        return None;
    }
    let first: &str = s[0].as_str();
    if n == 1 {
        return if get && text_eq(first, "models") {
            Some(RouteKind::ListModels)
        } else if get && sessions && text_eq(first, "health") {
            Some(RouteKind::Health)
        } else if get && text_eq(first, "conversations") {
            Some(RouteKind::ListConversations)
        } else if post && text_eq(first, "conversations") {
            Some(RouteKind::CreateConversation)
        } else {
            None
        };
    }
    if !text_eq(first, "conversations") {
        return None;
    }
    if n == 2 {
        return if patch {
            Some(RouteKind::RenameConversation)
        } else if delete {
            Some(RouteKind::DeleteConversation)
        } else {
            None
        };
    }
    let what: &str = s[2].as_str();
    if text_eq(what, "seen") {
        proof {
            reveal_strlit("seen");
            reveal_strlit("status");
            assert("seen"@.len() != "status"@.len());
        }
        if n == 3 && post {
            Some(RouteKind::MarkSeen)
        } else {
            None
        }
    } else if text_eq(what, "status") {
        if n == 3 && get {
            Some(RouteKind::Status)
        } else {
            None
        }
    } else if text_eq(what, "workspace") {
        if n == 3 && get {
            Some(RouteKind::ListWorkspace)
        } else if n == 3 && delete {
            Some(RouteKind::DeleteWorkspacePath)
        } else if n == 3 && patch {
            Some(RouteKind::MoveWorkspacePath)
        } else if n == 4 && get && text_eq(s[3].as_str(), "file") {
            Some(RouteKind::ReadWorkspaceFile)
        } else if n == 4 && post && text_eq(s[3].as_str(), "upload") {
            Some(RouteKind::UploadWorkspaceArchive)
        } else if n == 4 && get && text_eq(s[3].as_str(), "download") {
            Some(RouteKind::DownloadWorkspaceArchive)
        } else {
            None
        }
    } else if text_eq(what, "terminals") {
        if n == 3 && get {
            Some(RouteKind::ListTerminals)
        } else if n == 3 && post {
            Some(RouteKind::CreateTerminal)
        } else if n == 4 && get {
            Some(RouteKind::GetTerminal)
        } else if n == 4 && delete {
            Some(RouteKind::TerminateTerminal)
        } else {
            None
        }
    } else if text_eq(what, "foreground_sessions") {
        if n == 5 && post && text_eq(s[4].as_str(), "messages") {
            Some(RouteKind::PostSessionMessage)
        } else if !sessions {
            None
        } else if n == 3 && get {
            Some(RouteKind::ListSessions)
        } else if n == 3 && post {
            Some(RouteKind::CreateSession)
        } else if n == 4 && patch {
            Some(RouteKind::RenameSession)
        } else if n == 4 && delete {
            Some(RouteKind::DeleteSession)
        } else if n == 5 && get && text_eq(s[4].as_str(), "messages") {
            Some(RouteKind::ListSessionMessages)
        } else if n == 6 && get && text_eq(s[4].as_str(), "messages") {
            Some(RouteKind::SessionMessageDetail)
        } else {
            None
        }
    } else if !sessions && text_eq(what, "messages") {
        if n == 3 && get {
            Some(RouteKind::ListMessages)
        } else if n == 3 && post {
            Some(RouteKind::PostMessage)
        } else if n == 4 && get {
            Some(RouteKind::MessageDetail)
        } else {
            None
        }
    } else {
        None
    }
}

/// How many ids a path of a kind holds.
fn id_count(kind: RouteKind) -> (n: usize)
    ensures
        n <= 3,
        forall|s: Seq<Seq<char>>| (#[trigger] ids_of(kind, s)).len() == n,
        forall|s: Seq<Seq<char>>, i: int|
            0 <= i < n ==> (#[trigger] ids_of(kind, s)[i]) == s[2 * i + 1],
{
    match kind {
        RouteKind::Health
        | RouteKind::ListModels
        | RouteKind::ListConversations
        | RouteKind::CreateConversation => 0,
        RouteKind::MessageDetail
        | RouteKind::GetTerminal
        | RouteKind::TerminateTerminal
        | RouteKind::RenameSession
        | RouteKind::DeleteSession
        | RouteKind::ListSessionMessages
        | RouteKind::PostSessionMessage => 2,
        RouteKind::SessionMessageDetail => 3,
        _ => 1,
    }
}

fn find_route(method: &str, s: &Vec<String>, sessions: bool) -> (r: Option<Route>)
    ensures
        opt_route(r) == route_of(method@, views(s@), sessions),
{
    let kind: RouteKind = match find_kind(method, s, sessions) {
        Some(kind) => kind,
        None => {
            return None;
        },
    };
    let n: usize = id_count(kind);
    let mut ids: Vec<String> = Vec::new();
    let mut i: usize = 0;
    while i < n
        invariant
            i <= n,
            n <= 3,
            kind_of(method@, views(s@), sessions) == Some(kind),
            n > 0 ==> 2 * n <= s@.len(),
            ids@.len() == i,
            forall|j: int| 0 <= j < i ==> (#[trigger] ids@[j])@ == views(s@)[2 * j + 1],
        decreases n - i,
    {
        ids.push(s[2 * i + 1].clone());
        i += 1;
    }
    assert(views(ids@) =~= ids_of(kind, views(s@)));
    Some(Route { kind, ids })
}

/// What happens to a request.
#[derive(Debug)]
pub enum Dispatch {
    /// It is answered with nothing.
    NoContent,
    /// It is refused.
    Refuse(HttpError),
    /// It is carried out.
    Run(Route),
}

pub open spec fn refuses(d: Dispatch, status: u16, message: Seq<char>) -> bool {
    d matches Dispatch::Refuse(e) && e.status == status && e.message@ == message
}

pub open spec fn runs(d: Dispatch, route: Option<(RouteKind, Seq<Seq<char>>)>) -> bool {
    match route {
        Some((kind, ids)) => d matches Dispatch::Run(r) && r.kind == kind && views(r.ids@) == ids,
        None => refuses(d, 404, "not_found"@),
    }
}

/// The segments behind `api`, for a path that starts with it.
pub open spec fn behind_api(s: Seq<Seq<char>>) -> Seq<Seq<char>> {
    if s.len() > 0 && s[0] == "api"@ {
        s.skip(1)
    } else {
        Seq::empty()
    }
}

/// Decides what happens to a request where conversations have sessions.
pub fn dispatch_session_request(request: &HttpRequest, token: &str) -> (d: Dispatch)
    requires
        request.wf(),
    ensures
        if request.method@ == "OPTIONS"@ {
            d is NoContent
        } else if request.wants_websocket() {
            refuses(d, 426, "upgrade required"@)
        } else if !header_authorizes(request.header("authorization"@), token@) && request.parameter(
            "token"@,
        ) != Some(token@) {
            refuses(d, 401, "unauthorized"@)
        } else {
            runs(d, route_of(request.method@, behind_api(segments(request.path@)), true))
        },
{
    let method: &str = request.method.as_str();
    if text_eq(method, "OPTIONS") {
        return Dispatch::NoContent;
    }
    if request.is_websocket() {
        return Dispatch::Refuse(HttpError::upgrade_required());
    }
    if !authorized(request, token) {
        return Dispatch::Refuse(HttpError::new(401, "unauthorized"));
    }
    let mut path: Vec<String> = split_path(request.path.as_str());
    let ghost all = views(path@);
    assert(all.len() == path@.len());
    if path.len() > 0 && text_eq(path[0].as_str(), "api") {
        let _ = path.remove(0);
        assert(views(path@) =~= all.skip(1));
    } else {
        path = Vec::new();
        assert(views(path@) =~= Seq::empty());
    }
    match find_route(method, &path, true) {
        Some(route) => Dispatch::Run(route),
        None => Dispatch::Refuse(HttpError::new(404, "not_found")),
    }
}

/// Whether a path belongs to the interface.
pub open spec fn is_api_path(path: Seq<char>) -> bool {
    "/api/"@.is_prefix_of(path) || path == "/api"@
}

fn path_is_api(path: &str) -> (b: bool)
    ensures
        b == is_api_path(path@),
{
    starts_with(path, "/api/") || text_eq(path, "/api")
}

/// Decides what happens to a request where conversations have one session each.
pub fn dispatch_request(request: &HttpRequest, token: &str) -> (d: Dispatch)
    requires
        request.wf(),
    ensures
        if request.method@ == "OPTIONS"@ {
            d is NoContent
        } else if !header_authorizes(request.header("authorization"@), token@) {
            refuses(d, 401, "unauthorized"@)
        } else if !is_api_path(request.path@) {
            refuses(d, 404, "not_found"@)
        } else {
            runs(d, route_of(request.method@, interface_segments(request.path@), false))
        },
{
    let method: &str = request.method.as_str();
    if text_eq(method, "OPTIONS") {
        return Dispatch::NoContent;
    }
    if !authorized_by_header(request, token) {
        return Dispatch::Refuse(HttpError::new(401, "unauthorized"));
    }
    if !path_is_api(request.path.as_str()) {
        return Dispatch::Refuse(HttpError::new(404, "not_found"));
    }
    let path: Vec<String> = api_segments(request.path.as_str());
    match find_route(method, &path, false) {
        Some(route) => Dispatch::Run(route),
        None => Dispatch::Refuse(HttpError::new(404, "not_found")),
    }
}

// ---------------------------------------------------------------------------
// Connections
// ---------------------------------------------------------------------------
/// What a connection shows.
#[derive(Debug)]
pub enum StreamRoute {
    /// All conversations.
    Home,
    /// A session of a conversation.
    Session(String, String),
    /// The messages of a conversation.
    Conversation(String),
    /// A terminal of a conversation.
    Terminal(String, String),
    Refuse(HttpError),
}

pub enum StreamView {
    Home,
    Session(Seq<char>, Seq<char>),
    Conversation(Seq<char>),
    Terminal(Seq<char>, Seq<char>),
    Refuse(u16, Seq<char>),
}

impl StreamRoute {
    pub open spec fn view(self) -> StreamView {
        match self {
            StreamRoute::Home => StreamView::Home,
            StreamRoute::Session(c, s) => StreamView::Session(c@, s@),
            StreamRoute::Conversation(c) => StreamView::Conversation(c@),
            StreamRoute::Terminal(c, t) => StreamView::Terminal(c@, t@),
            StreamRoute::Refuse(e) => StreamView::Refuse(e.status, e.message@),
        }
    }
}

/// The connection that a path asks for where conversations have sessions.
pub open spec fn session_stream_of(s: Seq<Seq<char>>) -> StreamView {
    if s.len() == 3 && s[0] == "api"@ && s[1] == "ws"@ && s[2] == "home"@ {
        StreamView::Home
    } else if s.len() == 6 && s[0] == "api"@ && s[1] == "conversations"@ && s[3]
        == "foreground_sessions"@ && s[5] == "ws"@ {
        StreamView::Session(s[2], s[4])
    } else if s.len() == 6 && s[0] == "api"@ && s[1] == "conversations"@ && s[3] == "terminals"@
        && s[5] == "ws"@ {
        StreamView::Terminal(s[2], s[4])
    } else {
        StreamView::Refuse(404, "not_found"@)
    }
}

pub fn session_stream_route(request: &HttpRequest, token: &str) -> (r: StreamRoute)
    requires
        request.wf(),
    ensures
        r@ == if !header_authorizes(request.header("authorization"@), token@) && request.parameter(
            "token"@,
        ) != Some(token@) {
            StreamView::Refuse(401, "unauthorized"@)
        } else {
            session_stream_of(segments(request.path@))
        },
{
    if !authorized(request, token) {
        return StreamRoute::Refuse(HttpError::new(401, "unauthorized"));
    }
    let s: Vec<String> = split_path(request.path.as_str());
    assert(views(s@).len() == s@.len());
    proof {
        reveal_strlit("foreground_sessions");
        reveal_strlit("terminals");
        assert("foreground_sessions"@.len() != "terminals"@.len());
    }
    if s.len() == 3 && text_eq(s[0].as_str(), "api") && text_eq(s[1].as_str(), "ws") && text_eq(
        s[2].as_str(),
        "home",
    ) {
        StreamRoute::Home
    } else if s.len() == 6 && text_eq(s[0].as_str(), "api") && text_eq(
        s[1].as_str(),
        "conversations",
    ) && text_eq(s[5].as_str(), "ws") && text_eq(s[3].as_str(), "foreground_sessions") {
        StreamRoute::Session(s[2].clone(), s[4].clone())
    } else if s.len() == 6 && text_eq(s[0].as_str(), "api") && text_eq(
        s[1].as_str(),
        "conversations",
    ) && text_eq(s[5].as_str(), "ws") && text_eq(s[3].as_str(), "terminals") {
        StreamRoute::Terminal(s[2].clone(), s[4].clone())
    } else {
        StreamRoute::Refuse(HttpError::new(404, "not_found"))
    }
}

/// The connection that a path asks for where conversations have one session each.
pub open spec fn stream_of(s: Seq<Seq<char>>) -> StreamView {
    if s.len() == 2 && s[0] == "conversations"@ && s[1] == "stream"@ {
        StreamView::Home
    } else if s.len() == 4 && s[0] == "conversations"@ && s[2] == "foreground"@ && s[3] == "ws"@ {
        StreamView::Conversation(s[1])
    } else if s.len() == 5 && s[0] == "conversations"@ && s[2] == "terminals"@ && s[4]
        == "stream"@ {
        StreamView::Terminal(s[1], s[3])
    } else {
        StreamView::Refuse(404, "not_found"@)
    }
}

pub fn stream_route(request: &HttpRequest, token: &str) -> (r: StreamRoute)
    requires
        request.wf(),
    ensures
        r@ == if !is_api_path(request.path@) {
            StreamView::Refuse(404, "not_found"@)
        } else if !header_authorizes(request.header("authorization"@), token@)
            && request.parameter("token"@) != Some(token@) {
            StreamView::Refuse(401, "unauthorized"@)
        } else if request.header("sec-websocket-key"@) is None {
            StreamView::Refuse(400, "missing sec-websocket-key"@)
        } else {
            stream_of(interface_segments(request.path@))
        },
{
    if !path_is_api(request.path.as_str()) {
        return StreamRoute::Refuse(HttpError::new(404, "not_found"));
    }
    if !authorized_by_header(request, token) && !authorized_by_query(request, token) {
        return StreamRoute::Refuse(HttpError::new(401, "unauthorized"));
    }
    if request.headers.get("sec-websocket-key").is_none() {
        return StreamRoute::Refuse(HttpError::new(400, "missing sec-websocket-key"));
    }
    let s: Vec<String> = api_segments(request.path.as_str());
    assert(views(s@).len() == s@.len());
    if s.len() == 2 && text_eq(s[0].as_str(), "conversations") && text_eq(s[1].as_str(), "stream") {
        StreamRoute::Home
    } else if s.len() == 4 && text_eq(s[0].as_str(), "conversations") && text_eq(
        s[2].as_str(),
        "foreground",
    ) && text_eq(s[3].as_str(), "ws") {
        StreamRoute::Conversation(s[1].clone())
    } else if s.len() == 5 && text_eq(s[0].as_str(), "conversations") && text_eq(
        s[2].as_str(),
        "terminals",
    ) && text_eq(s[4].as_str(), "stream") {
        StreamRoute::Terminal(s[1].clone(), s[3].clone())
    } else {
        StreamRoute::Refuse(HttpError::new(404, "not_found"))
    }
}

} // verus!
