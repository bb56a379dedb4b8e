//! Requests for the files of a conversation, and what is made of the answers.

use vstd::prelude::*;
use vstd::utf8::encode_utf8;
use crate::encoding::{base64_decode, base64_encode, base64_of, base64_read, utf8_bytes};
use crate::paths::{extension_of_path, path_extension};
use crate::text::{opt_view, text_eq};
use crate::text_map::TextMap;
use crate::web::http::{
    number_parameter, query_bool, query_opt_usize, query_u64, query_usize, says_yes,
    HttpError,
};
use crate::web::url::text_values;
use crate::words::{lower_seq, to_lower};

verus! {

/// How much of a file is shown unless more is asked for.
pub const DEFAULT_WORKSPACE_FILE_LIMIT_BYTES: usize = 1048576;

/// How much of a file is shown at most.
pub const MAX_WORKSPACE_FILE_PREVIEW_BYTES: usize = 26214400;

#[derive(Clone, Copy, Debug, PartialEq, Eq, Structural)]
pub enum WorkspaceFileEncoding {
    Utf8,
    Base64,
}

/// What is asked of a workspace, wherever it is.
#[derive(Debug)]
pub enum WorkspaceRequest {
    List { path: Option<String>, limit: Option<usize> },
    ReadFile { path: String, offset: Option<u64>, limit_bytes: Option<usize> },
    DeletePath { path: String },
    MovePath { from_path: String, to_path: String },
    UploadArchive { dir_path: String, encoding: WorkspaceFileEncoding, data: String },
    DownloadArchive { paths: Vec<String> },
}

/// The value of a parameter, where it is there.
pub open spec fn value_of(query: TextMap<String>, name: Seq<char>) -> Option<Seq<char>> {
    if query@.contains_key(name) {
        Some(query@[name]@)
    } else {
        None
    }
}

/// The value of a parameter, where it is there and not empty.
pub open spec fn filled(query: TextMap<String>, name: Seq<char>) -> Option<Seq<char>> {
    match value_of(query, name) {
        Some(v) => if v.len() > 0 {
            Some(v)
        } else {
            None
        },
        None => None,
    }
}

fn find_value(query: &TextMap<String>, name: &str) -> (r: Option<String>)
    requires
        query.wf(),
    ensures
        opt_view(r) == value_of(*query, name@),
{
    match query.get(name) {
        Some(v) => Some(v.clone()),
        None => None,
    }
}

fn find_filled(query: &TextMap<String>, name: &str) -> (r: Option<String>)
    requires
        query.wf(),
    ensures
        opt_view(r) == filled(*query, name@),
{
    match query.get(name) {
        Some(v) => if v.as_str().is_empty() {
            None
        } else {
            Some(v.clone())
        },
        None => None,
    }
}

/// Whether a machine number is the one that is stated.
pub open spec fn is_number(r: Option<usize>, n: Option<nat>) -> bool {
    match (r, n) {
        (Some(a), Some(b)) => a == b,
        (None, None) => true,
        _ => false,
    }
}

pub open spec fn size_parameter(query: TextMap<String>, name: Seq<char>) -> Option<nat> {
    number_parameter(text_values(query@), name, usize::MAX as nat)
}

pub open spec fn offset_parameter(query: TextMap<String>, name: Seq<char>) -> Option<nat> {
    number_parameter(text_values(query@), name, u64::MAX as nat)
}

pub open spec fn is_offset(r: Option<u64>, n: Option<nat>) -> bool {
    match (r, n) {
        (Some(a), Some(b)) => a == b,
        (None, None) => true,
        _ => false,
    }
}

// ---------------------------------------------------------------------------
// Conversations with sessions
// ---------------------------------------------------------------------------
pub fn list_workspace_request(query: &TextMap<String>) -> (r: WorkspaceRequest)
    requires
        query.wf(),
    ensures
        r matches WorkspaceRequest::List { path, limit } && opt_view(path) == filled(
            *query,
            "path"@,
        ) && is_number(limit, size_parameter(*query, "limit"@)),
{
    WorkspaceRequest::List {
        path: find_filled(query, "path"),
        limit: query_opt_usize(query, "limit"),
    }
}

pub open spec fn path_is_required<T>(r: Result<T, HttpError>) -> bool {
    r matches Err(e) && e.status == 400 && e.message@ == "path is required"@
}

pub fn read_file_request(query: &TextMap<String>) -> (r: Result<WorkspaceRequest, HttpError>)
    requires
        query.wf(),
    ensures
        match filled(*query, "path"@) {
            None => path_is_required(r),
            Some(p) => r matches Ok(WorkspaceRequest::ReadFile { path, offset, limit_bytes })
                && path@ == p && is_offset(offset, offset_parameter(*query, "offset"@))
                && is_number(limit_bytes, size_parameter(*query, "limit_bytes"@)),
        },
{
    match find_filled(query, "path") {
        None => Err(HttpError::new(400, "path is required")),
        Some(path) => Ok(
            WorkspaceRequest::ReadFile {
                path,
                offset: query_u64(query, "offset"),
                limit_bytes: query_opt_usize(query, "limit_bytes"),
            },
        ),
    }
}

pub fn delete_path_request(query: &TextMap<String>) -> (r: Result<WorkspaceRequest, HttpError>)
    requires
        query.wf(),
    ensures
        match filled(*query, "path"@) {
            None => path_is_required(r),
            Some(p) => r matches Ok(WorkspaceRequest::DeletePath { path }) && path@ == p,
        },
{
    match find_filled(query, "path") {
        None => Err(HttpError::new(400, "path is required")),
        Some(path) => Ok(WorkspaceRequest::DeletePath { path }),
    }
}

/// The request that stores an archive below a directory.
pub fn upload_archive_request(query: &TextMap<String>, body: &[u8]) -> (r: WorkspaceRequest)
    requires
        query.wf(),
    ensures
        r matches WorkspaceRequest::UploadArchive { dir_path, encoding, data } && dir_path@
            == (match value_of(*query, "path"@) {
            Some(p) => p,
            None => ""@,
        }) && encoding == WorkspaceFileEncoding::Base64 && data@ == base64_of(body@),
{
    let dir_path: String = match find_value(query, "path") {
        Some(p) => p,
        None => "".to_owned(),
    };
    WorkspaceRequest::UploadArchive {
        dir_path,
        encoding: WorkspaceFileEncoding::Base64,
        data: base64_encode(body),
    }
}

pub open spec fn asks_for_archive(r: WorkspaceRequest, path: Seq<char>) -> bool {
    r matches WorkspaceRequest::DownloadArchive { paths } && paths@.len() == 1 && paths@[0]@ == path
}

pub fn download_archive_request(query: &TextMap<String>) -> (r: Result<WorkspaceRequest, HttpError>)
    requires
        query.wf(),
    ensures
        match filled(*query, "path"@) {
            None => path_is_required(r),
            Some(p) => r matches Ok(q) && asks_for_archive(q, p),
        },
{
    match find_filled(query, "path") {
        None => Err(HttpError::new(400, "path is required")),
        Some(path) => Ok(WorkspaceRequest::DownloadArchive { paths: vec![path] }),
    }
}

// ---------------------------------------------------------------------------
// Conversations with one session each
// ---------------------------------------------------------------------------
pub fn conversation_workspace_request(query: &TextMap<String>) -> (r: WorkspaceRequest)
    requires
        query.wf(),
    ensures
        ({
            let n = match size_parameter(*query, "limit"@) {
                Some(n) => n,
                None => 200,
            };
            r matches WorkspaceRequest::List { path, limit } && opt_view(path) == value_of(
                *query,
                "path"@,
            ) && is_number(
                limit,
                Some(
                    if n <= 1000 {
                        n
                    } else {
                        1000
                    },
                ),
            )
        }),
{
    let n: usize = query_usize(query, "limit", 200);
    let limit: usize = if n <= 1000 {
        n
    } else {
        1000
    };
    WorkspaceRequest::List { path: find_value(query, "path"), limit: Some(limit) }
}

/// Whether an extension in lower case is that of an image.
pub open spec fn is_image_extension(e: Seq<char>) -> bool {
    e == "png"@ || e == "jpg"@ || e == "jpeg"@ || e == "gif"@ || e == "webp"@ || e == "heic"@ || e
        == "heif"@
}

pub open spec fn is_image_path(path: Seq<char>) -> bool {
    path_extension(path) matches Some(e) && is_image_extension(lower_seq(e))
}

pub fn is_image_workspace_path(path: &str) -> (b: bool)
    ensures
        b == is_image_path(path@),
{
    match extension_of_path(path) {
        Some(extension) => {
            let lower: String = to_lower(extension.as_str());
            let e: &str = lower.as_str();
            text_eq(e, "png") || text_eq(e, "jpg") || text_eq(e, "jpeg") || text_eq(e, "gif")
                || text_eq(e, "webp") || text_eq(e, "heic") || text_eq(e, "heif")
        },
        None => false,
    }
}

/// How many bytes of a file are shown: all of an image that is asked for in full, else
/// what is asked for, within bounds.
pub open spec fn shown_bytes(query: TextMap<String>, path: Seq<char>) -> Option<nat> {
    if (value_of(query, "full"@) matches Some(v) && says_yes(v)) && is_image_path(path) {
        None
    } else {
        let n = match size_parameter(query, "limit_bytes"@) {
            Some(n) => n,
            None => DEFAULT_WORKSPACE_FILE_LIMIT_BYTES as nat,
        };
        if n < 1 {
            Some(1)
        } else if n > MAX_WORKSPACE_FILE_PREVIEW_BYTES {
            Some(MAX_WORKSPACE_FILE_PREVIEW_BYTES as nat)
        } else {
            Some(n)
        }
    }
}

pub fn conversation_workspace_file_request(query: &TextMap<String>) -> (r: Result<
    WorkspaceRequest,
    HttpError,
>)
    requires
        query.wf(),
    ensures
        match value_of(*query, "path"@) {
            None => r matches Err(e) && e.status == 400 && e.message@
                == "workspace file path is required"@,
            Some(p) => r matches Ok(WorkspaceRequest::ReadFile { path, offset, limit_bytes })
                && path@ == p && is_offset(
                offset,
                Some(
                    match offset_parameter(*query, "offset"@) {
                        Some(n) => n,
                        None => 0,
                    },
                ),
            ) && is_number(limit_bytes, shown_bytes(*query, p)),
        },
{
    let path: String = match find_value(query, "path") {
        Some(p) => p,
        None => {
            return Err(HttpError::new(400, "workspace file path is required"));
        },
    };
    let offset: u64 = match query_u64(query, "offset") {
        Some(n) => n,
        None => 0,
    };
    assert(text_values(query@).contains_key("full"@) == query@.contains_key("full"@));
    let full: bool = query_bool(query, "full") && is_image_workspace_path(path.as_str());
    let limit_bytes: Option<usize> = if full {
        None
    } else {
        let n: usize = query_usize(query, "limit_bytes", DEFAULT_WORKSPACE_FILE_LIMIT_BYTES);
        if n < 1 {
            Some(1)
        } else if n > MAX_WORKSPACE_FILE_PREVIEW_BYTES {
            Some(MAX_WORKSPACE_FILE_PREVIEW_BYTES)
        } else {
            Some(n)
        }
    };
    Ok(WorkspaceRequest::ReadFile { path, offset: Some(offset), limit_bytes })
}

pub fn conversation_workspace_delete_request(query: &TextMap<String>) -> (r: Result<
    WorkspaceRequest,
    HttpError,
>)
    requires
        query.wf(),
    ensures
        match value_of(*query, "path"@) {
            None => r matches Err(e) && e.status == 400 && e.message@
                == "workspace path is required"@,
            Some(p) => r matches Ok(WorkspaceRequest::DeletePath { path }) && path@ == p,
        },
{
    match find_value(query, "path") {
        None => Err(HttpError::new(400, "workspace path is required")),
        Some(path) => Ok(WorkspaceRequest::DeletePath { path }),
    }
}

pub fn conversation_workspace_download_request(query: &TextMap<String>) -> (r: Result<
    WorkspaceRequest,
    HttpError,
>)
    requires
        query.wf(),
    ensures
        match value_of(*query, "path"@) {
            None => r matches Err(e) && e.status == 400 && e.message@
                == "workspace path is required for download"@,
            Some(p) => r matches Ok(q) && asks_for_archive(q, p),
        },
{
    match find_value(query, "path") {
        None => Err(HttpError::new(400, "workspace path is required for download")),
        Some(path) => Ok(WorkspaceRequest::DownloadArchive { paths: vec![path] }),
    }
}

// ---------------------------------------------------------------------------
// Answers
// ---------------------------------------------------------------------------
/// What a workspace answers. Answers that are only passed on stay as they are.
#[derive(Debug)]
pub enum WorkspaceResponse {
    ArchiveDownloaded { encoding: WorkspaceFileEncoding, data: String },
    Error { message: String },
    Other,
}

/// Takes an answer; an error refuses the request.
pub fn workspace_answer(response: WorkspaceResponse) -> (r: Result<WorkspaceResponse, HttpError>)
    ensures
        match response {
            WorkspaceResponse::Error { message } => r matches Err(e) && e.status == 400
                && e.message@ == message@,
            _ => r matches Ok(x) && x == response,
        },
{
    match response {
        WorkspaceResponse::Error { message } => Err(HttpError::new(400, message.as_str())),
        other => Ok(other),
    }
}

/// The bytes of an archive, or why there are none.
pub open spec fn archive_bytes(encoding: WorkspaceFileEncoding, data: Seq<char>) -> Result<
    Seq<u8>,
    Seq<char>,
> {
    match encoding {
        WorkspaceFileEncoding::Base64 => base64_read(data),
        WorkspaceFileEncoding::Utf8 => Ok(encode_utf8(data)),
    }
}

/// The bytes that an answer brings. What was encoded for a workspace is read back.
pub fn downloaded_archive(response: &WorkspaceResponse) -> (r: Result<Vec<u8>, HttpError>)
    ensures
        match *response {
            WorkspaceResponse::ArchiveDownloaded { encoding, data } => match archive_bytes(
                encoding,
                data@,
            ) {
                Ok(b) => r matches Ok(bytes) && bytes@ == b,
                Err(m) => r matches Err(e) && e.status == 500 && e.message@ == m,
            },
            _ => r matches Err(e) && e.status == 500 && e.message@
                == "workspace service returned unexpected download response"@,
        },
        forall|bytes: Seq<u8>|
            (*response matches WorkspaceResponse::ArchiveDownloaded { encoding, data } && encoding
                == WorkspaceFileEncoding::Base64 && data@ == #[trigger] base64_of(bytes)) ==> (
            r matches Ok(b) && b@ == bytes),
{
    match response {
        WorkspaceResponse::ArchiveDownloaded { encoding, data } => match encoding {
            WorkspaceFileEncoding::Base64 => match base64_decode(data.as_str()) {
                Ok(bytes) => Ok(bytes),
                Err(e) => Err(HttpError::internal(e.as_str())),
            },
            WorkspaceFileEncoding::Utf8 => Ok(utf8_bytes(data.as_str())),
        },
        _ => Err(
            HttpError::new(500, "workspace service returned unexpected download response"),
        ),
    }
}

/// The status of an answer.
pub fn workspace_status(response: &WorkspaceResponse) -> (status: u16)
    ensures
        status == (if *response is Error {
            400u16
        } else {
            200u16
        }),
{
    match response {
        WorkspaceResponse::Error { .. } => 400,
        _ => 200,
    }
}

// ---------------------------------------------------------------------------
// Waiting
// ---------------------------------------------------------------------------
/// Why waiting for an answer ended.
#[derive(Clone, Copy, Debug, PartialEq, Eq, Structural)]
pub enum WaitFailure {
    TimedOut,
    Disconnected,
}

/// The error of a request that was not answered, where conversations have sessions.
pub fn wait_error(failure: WaitFailure) -> (r: HttpError)
    ensures
        failure == WaitFailure::TimedOut ==> r.status == 504 && r.message@ == "request timed out"@,
        failure == WaitFailure::Disconnected ==> r.status == 503 && r.message@
            == "conversation event stream closed"@,
{
    match failure {
        WaitFailure::TimedOut => HttpError::new(504, "request timed out"),
        WaitFailure::Disconnected => HttpError::new(503, "conversation event stream closed"),
    }
}

/// The error of a request to a service that was not answered.
pub fn service_wait_error(service: &str, failure: WaitFailure) -> (r: HttpError)
    ensures
        failure == WaitFailure::TimedOut ==> r.status == 504 && r.message@ == service@
            + " request timed out"@,
        failure == WaitFailure::Disconnected ==> r.status == 500 && r.message@ == service@
            + " response stream disconnected"@,
{
    match failure {
        WaitFailure::TimedOut => {
            let message: String = crate::text::cat2(service, " request timed out");
            HttpError::new(504, message.as_str())
        },
        WaitFailure::Disconnected => {
            let message: String = crate::text::cat2(service, " response stream disconnected");
            HttpError::internal(message.as_str())
        },
    }
}

/// Whether an event answers a request.
pub fn answers(request_id: &str, event_id: Option<&str>) -> (b: bool)
    ensures
        b == (event_id matches Some(id) && id@ == request_id@),
{
    match event_id {
        Some(id) => text_eq(id, request_id),
        None => false,
    }
}

} // verus!
