//! Terminals in the browser: their sessions, their output and their commands.

use vstd::prelude::*;
use crate::config::{is_absolute, join_path, joined, path_is_absolute};
use crate::encoding::{from_utf8_lossy, shown_text};
use crate::paths::{path_parts, split_path_parts};
use crate::text::{
    cat2, cat3, cat5, char_is_ascii_word, chars_of, is_ascii_word, is_blank, opt_copy, opt_str_view,
    opt_text_eq, opt_view, text_eq, trim, trimmed, views,
};
use crate::words::{join, join_seq, replace_char, replace_seq};
use crate::loaders::partyclaw::{trim_trailing_slashes, without_trailing_slashes};

verus! {

pub const DEFAULT_COLS: u16 = 120;

pub const DEFAULT_ROWS: u16 = 30;

pub const MIN_COLS: u16 = 20;

pub const MIN_ROWS: u16 = 5;

pub const MAX_COLS: u16 = 400;

pub const MAX_ROWS: u16 = 120;

pub const MAX_OUTPUT_BUFFER_BYTES: usize = 2097152;

pub const DEFAULT_OUTPUT_LIMIT_BYTES: usize = 262144;

pub const MAX_OUTPUT_LIMIT_BYTES: usize = 1048576;

pub const MAX_TERMINALS_PER_CONVERSATION: usize = 8;

pub const MAX_TERMINALS_TOTAL: usize = 128;

#[derive(Debug)]
pub struct TerminalCreateRequest {
    pub shell: Option<String>,
    pub cwd: Option<String>,
    pub cols: Option<u16>,
    pub rows: Option<u16>,
}

#[derive(Debug)]
pub struct TerminalInputRequest {
    pub data: String,
}

#[derive(Clone, Copy, Debug, PartialEq, Eq, Structural)]
pub struct TerminalResizeRequest {
    pub cols: u16,
    pub rows: u16,
}

#[derive(Debug)]
pub struct TerminalSummary {
    pub terminal_id: String,
    pub conversation_id: String,
    pub mode: TerminalMode,
    pub remote: Option<TerminalRemote>,
    pub shell: String,
    pub cwd: String,
    pub cols: u16,
    pub rows: u16,
    pub running: bool,
    pub created_ms: u128,
    pub updated_ms: u128,
    pub next_offset: u64,
}

#[derive(Clone, Copy, Debug, PartialEq, Eq, Structural)]
pub enum TerminalMode {
    Local,
    FixedSsh,
}

#[derive(Debug)]
pub struct TerminalRemote {
    pub host: String,
    pub cwd: Option<String>,
}

#[derive(Debug)]
pub struct TerminalOutput {
    pub terminal_id: String,
    pub offset: u64,
    pub next_offset: u64,
    pub buffer_start_offset: u64,
    pub dropped_bytes: u64,
    pub encoding: &'static str,
    pub data: String,
    pub running: bool,
}

#[derive(Debug)]
pub enum WebTerminalError {
    InvalidRequest(String),
    NotFound,
    LimitExceeded(String),
    Internal(String),
}

pub open spec fn error_message(e: WebTerminalError) -> Seq<char> {
    match e {
        WebTerminalError::InvalidRequest(m) => m@,
        WebTerminalError::NotFound => "terminal_not_found"@,
        WebTerminalError::LimitExceeded(m) => m@,
        WebTerminalError::Internal(m) => m@,
    }
}

impl WebTerminalError {
    pub fn message(&self) -> (r: String)
        ensures
            r@ == error_message(*self),
    {
        match self {
            WebTerminalError::InvalidRequest(m) => m.clone(),
            WebTerminalError::NotFound => "terminal_not_found".to_owned(),
            WebTerminalError::LimitExceeded(m) => m.clone(),
            WebTerminalError::Internal(m) => m.clone(),
        }
    }
}

/// Where the tools of a conversation run: here, or on a fixed host.
#[derive(Debug)]
pub enum ToolRemoteMode {
    Selectable,
    FixedSsh { host: String, cwd: Option<String> },
}

pub enum RemoteView {
    Selectable,
    FixedSsh { host: Seq<char>, cwd: Option<Seq<char>> },
}

impl ToolRemoteMode {
    pub open spec fn view(self) -> RemoteView {
        match self {
            ToolRemoteMode::Selectable => RemoteView::Selectable,
            ToolRemoteMode::FixedSsh { host, cwd } => RemoteView::FixedSsh {
                host: host@,
                cwd: opt_view(cwd),
            },
        }
    }

    pub fn copy(&self) -> (r: Self)
        ensures
            r@ == self@,
    {
        match self {
            ToolRemoteMode::Selectable => ToolRemoteMode::Selectable,
            ToolRemoteMode::FixedSsh { host, cwd } => ToolRemoteMode::FixedSsh {
                host: host.clone(),
                cwd: opt_copy(cwd),
            },
        }
    }

    pub fn same(&self, other: &Self) -> (b: bool)
        ensures
            b == (self@ == other@),
    {
        match (self, other) {
            (ToolRemoteMode::Selectable, ToolRemoteMode::Selectable) => true,
            (
                ToolRemoteMode::FixedSsh { host: a, cwd: c },
                ToolRemoteMode::FixedSsh { host: b, cwd: d },
            ) => text_eq(a.as_str(), b.as_str()) && opt_text_eq(c, d),
            _ => false,
        }
    }
}

// ---------------------------------------------------------------------------
// Sizes and limits
// ---------------------------------------------------------------------------
pub open spec fn clamped(value: int, min: int, max: int) -> int {
    if value < min {
        min
    } else if value > max {
        max
    } else {
        value
    }
}

/// How many bytes of output are read: what is asked for, within limits.
pub fn output_limit(value: Option<usize>) -> (r: usize)
    ensures
        r == match value {
            Some(n) => clamped(n as int, 1, MAX_OUTPUT_LIMIT_BYTES as int),
            None => DEFAULT_OUTPUT_LIMIT_BYTES as int,
        },
        1 <= r <= MAX_OUTPUT_LIMIT_BYTES,
{
    let n: usize = match value {
        Some(n) => n,
        None => DEFAULT_OUTPUT_LIMIT_BYTES,
    };
    if n < 1 {
        1
    } else if n > MAX_OUTPUT_LIMIT_BYTES {
        MAX_OUTPUT_LIMIT_BYTES
    } else {
        n
    }
}

// ---------------------------------------------------------------------------
// Output
// ---------------------------------------------------------------------------
/// The last bytes that a terminal put out, and where they stand in its whole output.
#[derive(Debug)]
pub struct OutputBuffer {
    pub start_offset: u64,
    pub next_offset: u64,
    pub bytes: Vec<u8>,
}

pub open spec fn capped_sum(a: nat, b: nat) -> u64 {
    if a + b <= u64::MAX {
        (a + b) as u64
    } else {
        u64::MAX
    }
}

fn saturating_sum(a: u64, b: u64) -> (r: u64)
    ensures
        r == capped_sum(a as nat, b as nat),
{
    match a.checked_add(b) {
        Some(s) => s,
        None => u64::MAX,
    }
}

impl OutputBuffer {
    /// The buffer is not over its limit, and its offsets tell how much it holds.
    pub open spec fn wf(self) -> bool {
        &&& self.bytes@.len() <= MAX_OUTPUT_BUFFER_BYTES
        &&& self.next_offset < u64::MAX ==> self.start_offset + self.bytes@.len()
            == self.next_offset
    }

    pub fn new() -> (r: Self)
        ensures
            r.wf(),
            r.start_offset == 0,
            r.next_offset == 0,
            r.bytes@.len() == 0,
    {
        OutputBuffer { start_offset: 0, next_offset: 0, bytes: Vec::new() }
    }

    /// Whether this is a buffer after output was added: the newest bytes are kept, as many
    /// as fit.
    pub open spec fn is_extended(self, before: OutputBuffer, data: Seq<u8>) -> bool {
        let all = before.bytes@ + data;
        let dropped = if all.len() > MAX_OUTPUT_BUFFER_BYTES {
            (all.len() - MAX_OUTPUT_BUFFER_BYTES) as nat
        } else {
            0
        };
        &&& self.bytes@ == all.skip(dropped as int)
        &&& self.start_offset == capped_sum(before.start_offset as nat, dropped)
        &&& self.next_offset == capped_sum(before.next_offset as nat, data.len())
    }

    /// Adds output; the oldest bytes are dropped when there are too many.
    pub fn append(&mut self, data: &[u8])
        requires
            old(self).wf(),
        ensures
            final(self).wf(),
            final(self).is_extended(*old(self), data@),
    {
        let ghost before = *self;
        let ghost all = self.bytes@ + data@;
        let held: usize = self.bytes.len();
        self.next_offset = saturating_sum(self.next_offset, data.len() as u64);
        if data.len() >= MAX_OUTPUT_BUFFER_BYTES {
            let skipped: usize = data.len() - MAX_OUTPUT_BUFFER_BYTES;
            let newest: &[u8] = vstd::slice::slice_subrange(data, skipped, data.len());
            let mut kept: Vec<u8> = Vec::new();
            kept.extend_from_slice(newest);
            self.bytes = kept;
            self.start_offset = saturating_sum(
                saturating_sum(self.start_offset, held as u64),
                skipped as u64,
            );
            assert(self.bytes@ =~= all.skip(all.len() - MAX_OUTPUT_BUFFER_BYTES));
        } else {
            self.bytes.extend_from_slice(data);
            assert(self.bytes@ =~= all);
            if self.bytes.len() > MAX_OUTPUT_BUFFER_BYTES {
                let drop: usize = self.bytes.len() - MAX_OUTPUT_BUFFER_BYTES;
                let kept: Vec<u8> = self.bytes.split_off(drop);
                assert(kept@ =~= all.skip(drop as int));
                self.bytes = kept;
                self.start_offset = saturating_sum(self.start_offset, drop as u64);
            } else {
                assert(self.bytes@.skip(0) =~= self.bytes@);
            }
        }
    }

    /// The bounds within the buffer of what is read from an offset on.
    pub open spec fn window(self, offset: u64, limit_bytes: usize) -> (int, int) {
        let n = self.bytes@.len() as int;
        let limit = clamped(
            clamped(limit_bytes as int, 1, MAX_OUTPUT_LIMIT_BYTES as int),
            1,
            if n > 1 {
                n
            } else {
                1
            },
        );
        let a = if offset > self.start_offset {
            offset - self.start_offset
        } else {
            0
        };
        let b = if a + limit < n {
            a + limit
        } else {
            n
        };
        (a, b)
    }

    /// The text that is read from an offset on.
    pub open spec fn text_from(self, offset: u64, limit_bytes: usize) -> Seq<char> {
        let (a, b) = self.window(offset, limit_bytes);
        if a < self.bytes@.len() {
            shown_text(self.bytes@.subrange(a, b))
        } else {
            Seq::empty()
        }
    }

    /// Reads from an offset on: the text, and the offset behind it.
    pub fn read(&self, offset: u64, limit_bytes: usize) -> (r: (String, u64))
        requires
            self.wf(),
        ensures
            r.0@ == self.text_from(offset, limit_bytes),
            r.1 == capped_sum(
                self.start_offset as nat,
                self.window(offset, limit_bytes).1 as nat,
            ),
    {
        let n: usize = self.bytes.len();
        let asked: usize = if limit_bytes < 1 {
            1
        } else if limit_bytes > MAX_OUTPUT_LIMIT_BYTES {
            MAX_OUTPUT_LIMIT_BYTES
        } else {
            limit_bytes
        };
        let most: usize = if n > 1 {
            n
        } else {
            1
        };
        let limit: usize = if asked > most {
            most
        } else {
            asked
        };
        let from: u64 = if offset > self.start_offset {
            offset - self.start_offset
        } else {
            0
        };
        if from >= n as u64 {
            return (String::new(), saturating_sum(self.start_offset, n as u64));
        }
        let a: usize = from as usize;
        let b: usize = if limit < n - a {
            a + limit
        } else {
            n
        };
        let part: &[u8] = vstd::slice::slice_subrange(self.bytes.as_slice(), a, b);
        assert(part@ =~= self.bytes@.subrange(a as int, b as int));
        (from_utf8_lossy(part), saturating_sum(self.start_offset, b as u64))
    }
}

/// A buffer keeps its offsets in step with its bytes: the newest bytes stay, as many as fit,
/// and what was dropped is counted.
pub proof fn output_buffer_keeps_the_newest(
    before: OutputBuffer,
    after: OutputBuffer,
    data: Seq<u8>,
)
    requires
        before.next_offset - before.start_offset == before.bytes@.len(),
        before.bytes@.len() <= MAX_OUTPUT_BUFFER_BYTES,
        before.next_offset + data.len() <= u64::MAX,
        after.is_extended(before, data),
    ensures
        after.next_offset - after.start_offset == after.bytes@.len(),
        after.bytes@.len() <= MAX_OUTPUT_BUFFER_BYTES,
        after.next_offset == before.next_offset + data.len(),
        after.bytes@.is_suffix_of(before.bytes@ + data),
        after.bytes@.len() == (before.bytes@ + data).len() || after.bytes@.len()
            == MAX_OUTPUT_BUFFER_BYTES,
        after.start_offset == before.start_offset + ((before.bytes@ + data).len()
            - after.bytes@.len()),
{
    let all = before.bytes@ + data;
    assert(after.bytes@ =~= all.subrange(all.len() - after.bytes@.len(), all.len() as int));
}

/// Reading on from where the last reading ended gives the bytes that follow, without a
/// gap and without overlap.
pub proof fn readings_follow_each_other(buffer: OutputBuffer, offset: u64, limit: usize)
    requires
        buffer.wf(),
        buffer.next_offset < u64::MAX,
        buffer.start_offset <= offset <= buffer.next_offset,
    ensures
        ({
            let end = buffer.window(offset, limit).1;
            let next = capped_sum(buffer.start_offset as nat, end as nat);
            buffer.window(next, limit).0 == end
        }),
{
}

// ---------------------------------------------------------------------------
// Shells and directories
// ---------------------------------------------------------------------------
pub open spec fn shell_char(c: char) -> bool {
    is_ascii_word(c) || c == '/' || c == '_' || c == '-' || c == '.' || c == '+'
}

/// Whether a text is a plain path or name of a command.
pub open spec fn is_shell_name(s: Seq<char>) -> bool {
    trimmed(s).len() > 0 && forall|i: int| 0 <= i < s.len() ==> shell_char(#[trigger] s[i])
}

pub fn valid_shell_name(shell: &str) -> (b: bool)
    ensures
        b == is_shell_name(shell@),
{
    if is_blank(shell) {
        return false;
    }
    let chars: Vec<char> = chars_of(shell);
    let mut i: usize = 0;
    while i < chars.len()
        invariant
            i <= chars@.len(),
            chars@ == shell@,
            forall|j: int| 0 <= j < i ==> shell_char(#[trigger] chars@[j]),
        decreases chars@.len() - i,
    {
        let c: char = chars[i];
        if !(char_is_ascii_word(c) || c == '/' || c == '_' || c == '-' || c == '.' || c == '+') {
            assert(!shell_char(shell@[i as int]));
            return false;
        }
        i += 1;
    }
    true
}

/// A text that is not blank, trimmed.
pub open spec fn filled(t: Option<Seq<char>>) -> Option<Seq<char>> {
    match t {
        Some(s) => if trimmed(s).len() > 0 {
            Some(trimmed(s))
        } else {
            None
        },
        None => None,
    }
}

/// The shell of a terminal: the one asked for, if it is a plain name; else the user's
/// own, or on a host the one that it has.
pub open spec fn shell_for(
    requested: Option<Seq<char>>,
    remote: RemoteView,
    env_shell: Option<Seq<char>>,
) -> Option<Seq<char>> {
    match filled(requested) {
        Some(s) => if is_shell_name(s) {
            Some(s)
        } else {
            None
        },
        None => match remote {
            RemoteView::Selectable => match env_shell {
                Some(e) => if is_shell_name(e) {
                    Some(e)
                } else {
                    Some("/bin/sh"@)
                },
                None => Some("/bin/sh"@),
            },
            RemoteView::FixedSsh { host, cwd } => Some("${SHELL:-sh}"@),
        },
    }
}

pub fn resolve_shell(
    requested: &Option<String>,
    remote_mode: &ToolRemoteMode,
    env_shell: Option<&str>,
) -> (r: Result<String, WebTerminalError>)
    ensures
        match r {
            Ok(s) => shell_for(opt_view(*requested), remote_mode@, opt_str_view(env_shell))
                == Some(s@),
            Err(e) => shell_for(opt_view(*requested), remote_mode@, opt_str_view(env_shell))
                is None && e is InvalidRequest && error_message(e)
                == "terminal shell must be a simple path or command name"@,
        },
{
    match requested {
        Some(t) => {
            let shell: &str = trim(t.as_str());
            if !shell.is_empty() {
                if !valid_shell_name(shell) {
                    return Err(
                        WebTerminalError::InvalidRequest(
                            "terminal shell must be a simple path or command name".to_owned(),
                        ),
                    );
                }
                return Ok(shell.to_owned());
            }
        },
        None => {},
    }
    match remote_mode {
        ToolRemoteMode::Selectable => match env_shell {
            Some(e) => {
                if valid_shell_name(e) {
                    Ok(e.to_owned())
                } else {
                    Ok("/bin/sh".to_owned())
                }
            },
            None => Ok("/bin/sh".to_owned()),
        },
        ToolRemoteMode::FixedSsh { .. } => Ok("${SHELL:-sh}".to_owned()),
    }
}

/// What a directory below the workspace is asked for as.
pub open spec fn relative_cwd(value: Option<Seq<char>>) -> Result<Option<Seq<char>>, Seq<char>> {
    match filled(value) {
        None => Ok(None),
        Some(raw) => if is_absolute(raw) {
            Err("terminal cwd must be relative to the conversation workspace"@)
        } else if path_parts(raw).contains(".."@) {
            Err("terminal cwd must not contain parent components"@)
        } else if path_parts(raw).len() == 0 {
            Ok(None)
        } else {
            Ok(Some(join_seq(path_parts(raw), "/"@)))
        },
    }
}

pub fn normalize_relative_cwd(value: &Option<String>) -> (r: Result<Option<String>, WebTerminalError>)
    ensures
        match (r, relative_cwd(opt_view(*value))) {
            (Ok(a), Ok(b)) => opt_view(a) == b,
            (Err(e), Err(f)) => e is InvalidRequest && error_message(e) == f,
            _ => false,
        },
{
    let raw: &str = match value {
        Some(t) => trim(t.as_str()),
        None => {
            return Ok(None);
        },
    };
    if raw.is_empty() {
        return Ok(None);
    }
    if path_is_absolute(raw) {
        return Err(
            WebTerminalError::InvalidRequest(
                "terminal cwd must be relative to the conversation workspace".to_owned(),
            ),
        );
    }
    let parts: Vec<String> = split_path_parts(raw);
    let ghost all = views(parts@);
    let mut i: usize = 0;
    while i < parts.len()
        invariant
            i <= parts@.len(),
            all == views(parts@),
            all == path_parts(raw@),
            filled(opt_view(*value)) == Some(raw@),
            !is_absolute(raw@),
            forall|j: int| 0 <= j < i ==> all[j] != ".."@,
        decreases parts@.len() - i,
    {
        assert(all[i as int] == parts@[i as int]@);
        if text_eq(parts[i].as_str(), "..") {
            return Err(
                WebTerminalError::InvalidRequest(
                    "terminal cwd must not contain parent components".to_owned(),
                ),
            );
        }
        i += 1;
    }
    assert(!all.contains(".."@));
    assert(all.len() == parts@.len());
    if parts.len() == 0 {
        Ok(None)
    } else {
        Ok(Some(join(parts.as_slice(), "/")))
    }
}

/// The directory on a host: the one asked for below the base, or the base, or the home
/// directory.
pub open spec fn remote_cwd(base: Option<Seq<char>>, relative: Option<Seq<char>>) -> Seq<char> {
    let b = match filled(base) {
        Some(b) => b,
        None => "~"@,
    };
    match relative {
        Some(r) => if r.len() > 0 {
            without_trailing_slashes(b) + "/"@ + r
        } else {
            b
        },
        None => b,
    }
}

/// The directory of a local terminal.
pub fn local_cwd(workspace_root: &str, relative: &Option<String>) -> (r: String)
    ensures
        r@ == match *relative {
            Some(path) => joined(workspace_root@, path@),
            None => workspace_root@,
        },
{
    match relative {
        Some(path) => join_path(workspace_root, path.as_str()),
        None => workspace_root.to_owned(),
    }
}

/// Checks the directory of a local terminal, of which it is known whether it exists and
/// whether it is a directory.
pub fn check_local_cwd(cwd: &str, exists: bool, is_directory: bool) -> (r: Result<
    (),
    WebTerminalError,
>)
    ensures
        match r {
            Ok(_) => exists && is_directory,
            Err(e) => e is InvalidRequest && !(exists && is_directory) && error_message(e) == if exists {
                "terminal cwd is not a directory: "@ + cwd@
            } else {
                "terminal cwd does not exist: "@ + cwd@
            },
        },
{
    if !exists {
        return Err(WebTerminalError::InvalidRequest(cat2("terminal cwd does not exist: ", cwd)));
    }
    if !is_directory {
        return Err(
            WebTerminalError::InvalidRequest(cat2("terminal cwd is not a directory: ", cwd)),
        );
    }
    Ok(())
}

pub fn resolve_remote_cwd(base: &Option<String>, relative: &Option<String>) -> (r: String)
    ensures
        r@ == remote_cwd(opt_view(*base), opt_view(*relative)),
{
    let own: &str = match base {
        Some(b) => trim(b.as_str()),
        None => "~",
    };
    let base: &str = if own.is_empty() {
        "~"
    } else {
        own
    };
    proof {
        reveal_strlit("~");
    }
    match relative {
        Some(r) => {
            if !r.as_str().is_empty() {
                return cat3(trim_trailing_slashes(base), "/", r.as_str());
            }
        },
        None => {},
    }
    base.to_owned()
}

/// A text between single quotes, as a shell reads it back.
pub open spec fn quoted(s: Seq<char>) -> Seq<char> {
    "'"@ + replace_seq(s, '\'', "'\\''"@) + "'"@
}

pub fn shell_quote(value: &str) -> (r: String)
    ensures
        r@ == quoted(value@),
{
    let inner: String = replace_char(value, '\'', "'\\''");
    cat3("'", inner.as_str(), "'")
}

/// The command that enters a directory on another host and starts a shell there.
pub open spec fn remote_command(cwd: Seq<char>, shell: Seq<char>) -> Seq<char> {
    "export TERM=xterm-256color COLORTERM=truecolor TERM_PROGRAM=Stellacode; cd "@ + quoted(cwd)
        + " && exec "@ + shell + " -l"@
}

pub fn remote_shell_command(cwd: &str, shell: &str) -> (r: String)
    ensures
        r@ == remote_command(cwd@, shell@),
{
    let dir: String = shell_quote(cwd);
    cat5(
        "export TERM=xterm-256color COLORTERM=truecolor TERM_PROGRAM=Stellacode; cd ",
        dir.as_str(),
        " && exec ",
        shell,
        " -l",
    )
}

/// The command that runs in a terminal, without what it starts in: the shell itself, or
/// one on another host.
pub open spec fn terminal_words(mode: RemoteView, cwd: Seq<char>, shell: Seq<char>) -> Seq<
    Seq<char>,
> {
    match mode {
        RemoteView::Selectable => seq![shell],
        RemoteView::FixedSsh { host, .. } => seq![
            "ssh"@,
            "-tt"@,
            host,
            "--"@,
            remote_command(cwd, shell),
        ],
    }
}

pub fn terminal_command(mode: &ToolRemoteMode, cwd: &str, shell: &str) -> (r: Vec<String>)
    ensures
        views(r@) == terminal_words(mode@, cwd@, shell@),
{
    let r: Vec<String> = match mode {
        ToolRemoteMode::Selectable => vec![shell.to_owned()],
        ToolRemoteMode::FixedSsh { host, .. } => vec![
            "ssh".to_owned(),
            "-tt".to_owned(),
            host.clone(),
            "--".to_owned(),
            remote_shell_command(cwd, shell),
        ],
    };
    assert(views(r@) =~= terminal_words(mode@, cwd@, shell@));
    r
}

/// What a shell makes of a word that starts between single quotes: quoted characters
/// stand for themselves, and a backslash outside quotes stands for the character that
/// follows.
pub open spec fn shell_word(s: Seq<char>, inside: bool) -> Seq<char>
    decreases s.len(),
{
    if s.len() == 0 {
        Seq::empty()
    } else if inside {
        if s[0] == '\'' {
            shell_word(s.skip(1), false)
        } else {
            seq![s[0]] + shell_word(s.skip(1), true)
        }
    } else if s[0] == '\'' {
        shell_word(s.skip(1), true)
    } else if s[0] == '\\' && s.len() > 1 {
        seq![s[1]] + shell_word(s.skip(2), false)
    } else {
        seq![s[0]] + shell_word(s.skip(1), false)
    }
}

proof fn lemma_replace_first(s: Seq<char>, c: char, with: Seq<char>)
    requires
        s.len() > 0,
    ensures
        replace_seq(s, c, with) == (if s[0] == c {
            with
        } else {
            seq![s[0]]
        }) + replace_seq(s.skip(1), c, with),
    decreases s.len(),
{
    let head = if s[0] == c {
        with
    } else {
        seq![s[0]]
    };
    if s.len() == 1 {
        assert(s.drop_last() =~= Seq::empty());
        assert(s.skip(1) =~= Seq::empty());
        assert(replace_seq(s, c, with) =~= head + replace_seq(s.skip(1), c, with));
    } else {
        lemma_replace_first(s.drop_last(), c, with);
        assert(s.drop_last().skip(1) =~= s.skip(1).drop_last());
        assert(replace_seq(s, c, with) =~= head + replace_seq(s.skip(1), c, with));
    }
}

proof fn lemma_quoted_body(s: Seq<char>, tail: Seq<char>)
    ensures
        shell_word(replace_seq(s, '\'', "'\\''"@) + tail, true) == s + shell_word(tail, true),
    decreases s.len(),
{
    reveal_strlit("'\\''");
    let q = "'\\''"@;
    if s.len() == 0 {
        assert(replace_seq(s, '\'', q) + tail =~= tail);
        assert(s + shell_word(tail, true) =~= shell_word(tail, true));
    } else {
        let rest = s.skip(1);
        let r = replace_seq(rest, '\'', q);
        lemma_replace_first(s, '\'', q);
        lemma_quoted_body(rest, tail);
        let whole = replace_seq(s, '\'', q) + tail;
        if s[0] == '\'' {
            assert(whole =~= q + (r + tail));
            assert(whole[0] == '\'');
            let w1 = whole.skip(1);
            assert(w1[0] == '\\');
            assert(w1[1] == '\'');
            let w3 = w1.skip(2);
            assert(w3[0] == '\'');
            let w4 = w3.skip(1);
            assert(w4 =~= r + tail);
            assert(shell_word(w3, false) == shell_word(w4, true));
            assert(shell_word(w1, false) == seq!['\''] + shell_word(w3, false));
            assert(shell_word(whole, true) == shell_word(w1, false));
            assert(s + shell_word(tail, true) =~= seq![s[0]] + (rest + shell_word(tail, true)));
        } else {
            assert(whole =~= seq![s[0]] + (r + tail));
            assert(whole.skip(1) =~= r + tail);
            assert(shell_word(whole, true) == seq![s[0]] + shell_word(r + tail, true));
            assert(s + shell_word(tail, true) =~= seq![s[0]] + (rest + shell_word(tail, true)));
        }
    }
}

/// A shell reads a quoted text back as it was, whatever it holds.
pub proof fn shell_reads_quoted_text_back(s: Seq<char>)
    ensures
        shell_word(quoted(s), false) == s,
{
    reveal_strlit("'");
    let body = replace_seq(s, '\'', "'\\''"@);
    let whole = quoted(s);
    assert(whole[0] == '\'');
    assert(whole.skip(1) =~= body + "'"@);
    lemma_quoted_body(s, "'"@);
    assert("'"@.skip(1) =~= Seq::empty());
    assert(shell_word(Seq::<char>::empty(), false) =~= Seq::<char>::empty());
    assert("'"@[0] == '\'');
    assert(shell_word("'"@, true) == shell_word("'"@.skip(1), false));
    assert(s + Seq::<char>::empty() =~= s);
}

} // verus!
