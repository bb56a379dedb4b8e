//! The terminals of all conversations: who has which, and how many there may be.

use vstd::prelude::*;
use crate::number::{
    decimal, decimal_has_its_value, decimal_text, digits_value, leading_zeros_count_nothing,
};
use crate::text::{cat2, opt_copy, opt_view, text_eq, views};
use crate::text_map::{less, less_is_irreflexive, TextMap};
use crate::web_terminal::{
    clamped, error_message, normalize_relative_cwd, relative_cwd, resolve_shell, shell_for,
    OutputBuffer, RemoteView, TerminalCreateRequest, TerminalMode, TerminalOutput,
    TerminalRemote, TerminalResizeRequest, TerminalSummary, ToolRemoteMode, WebTerminalError,
    DEFAULT_COLS, DEFAULT_ROWS, MAX_COLS, MAX_ROWS, MAX_TERMINALS_PER_CONVERSATION,
    MAX_TERMINALS_TOTAL, MIN_COLS, MIN_ROWS,
};

verus! {

/// The conversation that a request comes from.
#[derive(Debug)]
pub struct TerminalScope {
    pub conversation_id: String,
    pub remote_mode: ToolRemoteMode,
}

#[derive(Debug)]
pub struct TerminalSession {
    pub terminal_id: String,
    pub conversation_id: String,
    pub remote_mode: ToolRemoteMode,
    pub shell: String,
    pub cwd: String,
    pub cols: u16,
    pub rows: u16,
    pub running: bool,
    pub created_ms: u128,
    pub updated_ms: u128,
    pub output: OutputBuffer,
}

pub open spec fn remote_of(mode: RemoteView) -> Option<(Seq<char>, Option<Seq<char>>)> {
    match mode {
        RemoteView::Selectable => None,
        RemoteView::FixedSsh { host, cwd } => Some((host, cwd)),
    }
}

pub open spec fn opt_remote(r: Option<TerminalRemote>) -> Option<(Seq<char>, Option<Seq<char>>)> {
    match r {
        Some(r) => Some((r.host@, opt_view(r.cwd))),
        None => None,
    }
}

/// Whether a summary tells of a session.
pub open spec fn summarizes(s: TerminalSummary, t: TerminalSession) -> bool {
    &&& s.terminal_id@ == t.terminal_id@
    &&& s.conversation_id@ == t.conversation_id@
    &&& s.mode == (if t.remote_mode@ is Selectable {
        TerminalMode::Local
    } else {
        TerminalMode::FixedSsh
    })
    &&& opt_remote(s.remote) == remote_of(t.remote_mode@)
    &&& s.shell@ == t.shell@
    &&& s.cwd@ == t.cwd@
    &&& s.cols == t.cols
    &&& s.rows == t.rows
    &&& s.running == t.running
    &&& s.created_ms == t.created_ms
    &&& s.updated_ms == t.updated_ms
    &&& s.next_offset == t.output.next_offset
}

/// Whether this is the output of a terminal from an offset on.
pub open spec fn is_output_of(
    r: TerminalOutput,
    t: TerminalSession,
    offset: u64,
    limit_bytes: usize,
) -> bool {
    &&& r.terminal_id@ == t.terminal_id@
    &&& r.offset == offset
    &&& r.data@ == t.output.text_from(offset, limit_bytes)
    &&& r.next_offset == crate::web_terminal::capped_sum(
        t.output.start_offset as nat,
        t.output.window(offset, limit_bytes).1 as nat,
    )
    &&& r.buffer_start_offset == t.output.start_offset
    &&& r.dropped_bytes == (if t.output.start_offset > offset {
        t.output.start_offset - offset
    } else {
        0
    })
    &&& r.encoding@ == "utf8_lossy"@
    &&& r.running == t.running
}

impl TerminalSession {
    pub fn summary(&self) -> (r: TerminalSummary)
        ensures
            summarizes(r, *self),
    {
        let (mode, remote) = match &self.remote_mode {
            ToolRemoteMode::Selectable => (TerminalMode::Local, None),
            ToolRemoteMode::FixedSsh { host, cwd } => (
                TerminalMode::FixedSsh,
                Some(TerminalRemote { host: host.clone(), cwd: opt_copy(cwd) }),
            ),
        };
        TerminalSummary {
            terminal_id: self.terminal_id.clone(),
            conversation_id: self.conversation_id.clone(),
            mode,
            remote,
            shell: self.shell.clone(),
            cwd: self.cwd.clone(),
            cols: self.cols,
            rows: self.rows,
            running: self.running,
            created_ms: self.created_ms,
            updated_ms: self.updated_ms,
            next_offset: self.output.next_offset,
        }
    }

    /// The output from an offset on.
    pub fn output(&self, offset: u64, limit_bytes: usize) -> (r: TerminalOutput)
        requires
            self.output.wf(),
        ensures
            is_output_of(r, *self, offset, limit_bytes),
    {
        let (data, next_offset) = self.output.read(offset, limit_bytes);
        TerminalOutput {
            terminal_id: self.terminal_id.clone(),
            offset,
            next_offset,
            buffer_start_offset: self.output.start_offset,
            dropped_bytes: if self.output.start_offset > offset {
                self.output.start_offset - offset
            } else {
                0
            },
            encoding: "utf8_lossy",
            data,
            running: self.running,
        }
    }
}

/// A number in at least four digits.
pub open spec fn four_digits(n: nat) -> Seq<char> {
    if n < 10 {
        "000"@ + decimal(n)
    } else if n < 100 {
        "00"@ + decimal(n)
    } else if n < 1000 {
        "0"@ + decimal(n)
    } else {
        decimal(n)
    }
}

pub open spec fn terminal_name(index: u64) -> Seq<char> {
    "terminal_"@ + four_digits(index as nat)
}

fn make_terminal_name(index: u64) -> (r: String)
    ensures
        r@ == terminal_name(index),
{
    let digits: String = decimal_text(index);
    let padded: String = if index < 10 {
        cat2("000", digits.as_str())
    } else if index < 100 {
        cat2("00", digits.as_str())
    } else if index < 1000 {
        cat2("0", digits.as_str())
    } else {
        digits
    };
    cat2("terminal_", padded.as_str())
}

/// A terminal that is about to be opened.
#[derive(Debug)]
pub struct TerminalPlan {
    pub terminal_id: String,
    pub shell: String,
    pub cwd_request: Option<String>,
    pub cols: u16,
    pub rows: u16,
}

/// The terminals of all conversations. What runs in the dropped ones is still to be ended.
#[derive(Debug)]
pub struct TerminalManager {
    pub next_index: u64,
    pub sessions: TextMap<TerminalSession>,
    pub dropped: Vec<String>,
}

/// Whether a session belongs to a conversation whose tools run elsewhere by now.
pub open spec fn is_stale(t: TerminalSession, scope: TerminalScope) -> bool {
    t.conversation_id@ == scope.conversation_id@ && t.remote_mode@ != scope.remote_mode@
}

/// The keys of the stale sessions among the first `n` entries.
pub open spec fn stale_keys(
    entries: Seq<(String, TerminalSession)>,
    scope: TerminalScope,
    n: int,
) -> Seq<Seq<char>>
    decreases n,
{
    if n <= 0 || n > entries.len() {
        Seq::empty()
    } else {
        let rest = stale_keys(entries, scope, n - 1);
        if is_stale(entries[n - 1].1, scope) {
            rest.push(entries[n - 1].0@)
        } else {
            rest
        }
    }
}

/// The sessions without the stale ones.
pub open spec fn fresh(m: Map<Seq<char>, TerminalSession>, scope: TerminalScope) -> Map<
    Seq<char>,
    TerminalSession,
> {
    Map::new(|k: Seq<char>| m.contains_key(k) && !is_stale(m[k], scope), |k: Seq<char>| m[k])
}

/// The sessions of a conversation among the first `n` entries.
pub open spec fn count_of(
    entries: Seq<(String, TerminalSession)>,
    conversation_id: Seq<char>,
    n: int,
) -> nat
    decreases n,
{
    if n <= 0 || n > entries.len() {
        0
    } else {
        count_of(entries, conversation_id, n - 1) + (if entries[n - 1].1.conversation_id@
            == conversation_id {
            1nat
        } else {
            0
        })
    }
}

/// The ids of the sessions of a conversation.
pub open spec fn ids_of(m: Map<Seq<char>, TerminalSession>, conversation_id: Seq<char>) -> Set<
    Seq<char>,
> {
    m.dom().filter(|k: Seq<char>| m[k].conversation_id@ == conversation_id)
}

/// Why no further terminal can be opened: there are too many of them, or too many of the
/// conversation.
pub open spec fn limit_reached(m: Map<Seq<char>, TerminalSession>, conversation_id: Seq<char>) -> Option<
    Seq<char>,
> {
    if m.dom().len() >= MAX_TERMINALS_TOTAL {
        Some("web terminal limit exceeded: at most 128 terminals total"@)
    } else if ids_of(m, conversation_id).len() >= MAX_TERMINALS_PER_CONVERSATION {
        Some("web terminal limit exceeded: at most 8 terminals per conversation"@)
    } else {
        None
    }
}

/// Why a request for a terminal cannot be met, whatever terminals there are.
pub open spec fn request_error(
    request: TerminalCreateRequest,
    mode: RemoteView,
    env_shell: Option<Seq<char>>,
) -> Option<Seq<char>> {
    if shell_for(opt_view(request.shell), mode, env_shell) is None {
        Some("terminal shell must be a simple path or command name"@)
    } else {
        match relative_cwd(opt_view(request.cwd)) {
            Ok(_) => None,
            Err(e) => Some(e),
        }
    }
}

/// Whether a plan is the one for a request.
pub open spec fn plan_for(
    p: TerminalPlan,
    request: TerminalCreateRequest,
    mode: RemoteView,
    env_shell: Option<Seq<char>>,
) -> bool {
    &&& shell_for(opt_view(request.shell), mode, env_shell) == Some(p.shell@)
    &&& relative_cwd(opt_view(request.cwd)) == Ok::<_, Seq<char>>(opt_view(p.cwd_request))
    &&& p.cols == clamped(
        (match request.cols {
            Some(c) => c,
            None => DEFAULT_COLS,
        }) as int,
        MIN_COLS as int,
        MAX_COLS as int,
    )
    &&& p.rows == clamped(
        (match request.rows {
            Some(c) => c,
            None => DEFAULT_ROWS,
        }) as int,
        MIN_ROWS as int,
        MAX_ROWS as int,
    )
}

fn session_is_stale(t: &TerminalSession, scope: &TerminalScope) -> (b: bool)
    ensures
        b == is_stale(*t, *scope),
{
    text_eq(t.conversation_id.as_str(), scope.conversation_id.as_str()) && !t.remote_mode.same(
        &scope.remote_mode,
    )
}

impl TerminalManager {
    /// Sessions stand under their ids, and their buffers keep their limits.
    pub open spec fn wf(self) -> bool {
        &&& self.sessions.wf()
        &&& forall|k: Seq<char>| #[trigger]
            self.sessions@.contains_key(k) ==> self.sessions@[k].terminal_id@ == k
                && self.sessions@[k].output.wf()
    }

    pub fn new() -> (r: Self)
        ensures
            r.wf(),
            r.next_index == 0,
            r.sessions@ == Map::<Seq<char>, TerminalSession>::empty(),
            r.dropped@.len() == 0,
    {
        TerminalManager { next_index: 0, sessions: TextMap::new(), dropped: Vec::new() }
    }

    /// Whether the sessions of a conversation whose tools run elsewhere by now were dropped,
    /// and nothing else was changed.
    pub open spec fn drops_stale(before: Self, after: Self, scope: TerminalScope) -> bool {
        &&& after.next_index == before.next_index
        &&& after.sessions@ == fresh(before.sessions@, scope)
        &&& views(after.dropped@) == views(before.dropped@) + stale_keys(
            before.sessions.entries@,
            scope,
            before.sessions.entries@.len() as int,
        )
    }

    /// Hands out the terminals that were dropped; what runs in them is to be ended.
    pub fn take_dropped(&mut self) -> (r: Vec<String>)
        requires
            old(self).wf(),
        ensures
            final(self).wf(),
            r@ == old(self).dropped@,
            final(self).dropped@.len() == 0,
            final(self).next_index == old(self).next_index,
            final(self).sessions == old(self).sessions,
    {
        let mut r: Vec<String> = Vec::new();
        r.append(&mut self.dropped);
        assert(r@ =~= old(self).dropped@);
        r
    }

    /// Drops the sessions of a conversation whose tools run elsewhere by now.
    pub fn reset_stale_terminals(&mut self, scope: &TerminalScope)
        requires
            old(self).wf(),
        ensures
            final(self).wf(),
            Self::drops_stale(*old(self), *final(self), *scope),
    {
        let mut ids: Vec<String> = Vec::new();
        let ghost entries = self.sessions.entries@;
        let mut i: usize = 0;
        assert(views(ids@) =~= Seq::empty());
        while i < self.sessions.entries.len()
            invariant
                i <= self.sessions.entries@.len(),
                entries == self.sessions.entries@,
                *self == *old(self),
                views(ids@) == stale_keys(entries, *scope, i as int),
            decreases self.sessions.entries@.len() - i,
        {
            let ghost before = ids@;
            if session_is_stale(&self.sessions.entries[i].1, scope) {
                let id: String = self.sessions.entries[i].0.clone();
                ids.push(id);
                assert(views(ids@) =~= views(before).push(id@));
            }
            i += 1;
        }
        let ghost m = self.sessions@;
        let ghost keys = views(ids@);
        proof {
            lemma_stale_keys(self.sessions, *scope, entries.len() as int);
        }
        let mut j: usize = 0;
        assert(m.remove_keys(keys.take(0).to_set()) =~= m);
        while j < ids.len()
            invariant
                j <= ids@.len(),
                keys == views(ids@),
                self.sessions.wf(),
                self.next_index == old(self).next_index,
                self.dropped == old(self).dropped,
                self.sessions@ == m.remove_keys(keys.take(j as int).to_set()),
            decreases ids@.len() - j,
        {
            assert(keys[j as int] == ids@[j as int]@);
            self.sessions.remove(ids[j].as_str());
            proof {
                let a = keys.take(j as int);
                let b = keys.take(j + 1);
                assert forall|k: Seq<char>| b.to_set().contains(k) == (a.to_set().contains(k) || k
                    == keys[j as int]) by {
                    if b.contains(k) {
                        let x = choose|x: int| 0 <= x < b.len() && b[x] == k;
                        if x < j {
                            assert(a[x] == k);
                        }
                    }
                    if a.contains(k) {
                        let x = choose|x: int| 0 <= x < a.len() && a[x] == k;
                        assert(b[x] == k);
                    }
                    if k == keys[j as int] {
                        assert(b[j as int] == k);
                    }
                }
                assert(m.remove_keys(a.to_set()).remove(keys[j as int]) =~= m.remove_keys(
                    b.to_set(),
                ));
            }
            j += 1;
        }
        proof {
            assert(keys.take(keys.len() as int) =~= keys);
            assert(self.sessions@ =~= fresh(m, *scope));
        }
        let ghost before = self.dropped@;
        self.dropped.append(&mut ids);
        assert(views(self.dropped@) =~= views(before) + keys);
    }

    /// The terminals of a conversation, in order of their ids.
    pub open spec fn of_conversation(self, conversation_id: Seq<char>, n: int) -> Seq<
        TerminalSession,
    >
        decreases n,
    {
        if n <= 0 || n > self.sessions.entries@.len() {
            Seq::empty()
        } else {
            let rest = self.of_conversation(conversation_id, n - 1);
            if self.sessions.entries@[n - 1].1.conversation_id@ == conversation_id {
                rest.push(self.sessions.entries@[n - 1].1)
            } else {
                rest
            }
        }
    }

    /// Whether summaries are those of the terminals of a conversation.
    pub open spec fn lists(self, conversation_id: Seq<char>, r: Seq<TerminalSummary>) -> bool {
        let own = self.of_conversation(conversation_id, self.sessions.entries@.len() as int);
        r.len() == own.len() && forall|i: int|
            0 <= i < r.len() ==> summarizes(#[trigger] r[i], own[i])
    }

    pub fn list(&mut self, scope: &TerminalScope) -> (r: Vec<TerminalSummary>)
        requires
            old(self).wf(),
        ensures
            final(self).wf(),
            Self::drops_stale(*old(self), *final(self), *scope),
            final(self).lists(scope.conversation_id@, r@),
    {
        self.reset_stale_terminals(scope);
        let conversation_id: &str = scope.conversation_id.as_str();
        let ghost now = *self;
        let mut r: Vec<TerminalSummary> = Vec::new();
        let mut i: usize = 0;
        while i < self.sessions.entries.len()
            invariant
                *self == now,
                i <= self.sessions.entries@.len(),
                r@.len() == self.of_conversation(conversation_id@, i as int).len(),
                forall|k: int|
                    0 <= k < r@.len() ==> summarizes(
                        #[trigger] r@[k],
                        self.of_conversation(conversation_id@, i as int)[k],
                    ),
            decreases self.sessions.entries@.len() - i,
        {
            let t: &TerminalSession = &self.sessions.entries[i].1;
            if text_eq(t.conversation_id.as_str(), conversation_id) {
                r.push(t.summary());
            }
            i += 1;
        }
        r
    }

    /// Whether a terminal is there and belongs to a conversation.
    pub open spec fn has(self, conversation_id: Seq<char>, terminal_id: Seq<char>) -> bool {
        self.sessions@.contains_key(terminal_id) && self.sessions@[terminal_id].conversation_id@
            == conversation_id
    }

    fn find(&self, conversation_id: &str, terminal_id: &str) -> (r: Result<
        &TerminalSession,
        WebTerminalError,
    >)
        requires
            self.wf(),
        ensures
            match r {
                Ok(t) => self.has(conversation_id@, terminal_id@) && *t
                    == self.sessions@[terminal_id@],
                Err(e) => !self.has(conversation_id@, terminal_id@) && e is NotFound,
            },
    {
        match self.sessions.get(terminal_id) {
            Some(t) => {
                if text_eq(t.conversation_id.as_str(), conversation_id) {
                    Ok(t)
                } else {
                    Err(WebTerminalError::NotFound)
                }
            },
            None => Err(WebTerminalError::NotFound),
        }
    }

    /// The terminal of a conversation.
    pub fn lookup(&mut self, scope: &TerminalScope, terminal_id: &str) -> (r: Result<
        &TerminalSession,
        WebTerminalError,
    >)
        requires
            old(self).wf(),
        ensures
            final(self).wf(),
            Self::drops_stale(*old(self), *final(self), *scope),
            match r {
                Ok(t) => final(self).has(scope.conversation_id@, terminal_id@) && *t
                    == final(self).sessions@[terminal_id@],
                Err(e) => !final(self).has(scope.conversation_id@, terminal_id@) && e is NotFound,
            },
    {
        self.reset_stale_terminals(scope);
        self.find(scope.conversation_id.as_str(), terminal_id)
    }

    pub fn get(&mut self, scope: &TerminalScope, terminal_id: &str) -> (r: Result<
        TerminalSummary,
        WebTerminalError,
    >)
        requires
            old(self).wf(),
        ensures
            final(self).wf(),
            Self::drops_stale(*old(self), *final(self), *scope),
            match r {
                Ok(s) => final(self).has(scope.conversation_id@, terminal_id@) && summarizes(
                    s,
                    final(self).sessions@[terminal_id@],
                ),
                Err(e) => !final(self).has(scope.conversation_id@, terminal_id@) && e is NotFound,
            },
    {
        self.reset_stale_terminals(scope);
        match self.find(scope.conversation_id.as_str(), terminal_id) {
            Ok(t) => Ok(t.summary()),
            Err(e) => Err(e),
        }
    }

    /// The output of a terminal from an offset on.
    pub fn output(
        &mut self,
        scope: &TerminalScope,
        terminal_id: &str,
        offset: u64,
        limit_bytes: usize,
    ) -> (r: Result<TerminalOutput, WebTerminalError>)
        requires
            old(self).wf(),
        ensures
            final(self).wf(),
            Self::drops_stale(*old(self), *final(self), *scope),
            match r {
                Ok(o) => final(self).has(scope.conversation_id@, terminal_id@) && is_output_of(
                    o,
                    final(self).sessions@[terminal_id@],
                    offset,
                    limit_bytes,
                ),
                Err(e) => !final(self).has(scope.conversation_id@, terminal_id@) && e is NotFound,
            },
    {
        self.reset_stale_terminals(scope);
        match self.find(scope.conversation_id.as_str(), terminal_id) {
            Ok(t) => Ok(t.output(offset, limit_bytes)),
            Err(e) => Err(e),
        }
    }

    fn count_conversation(&self, conversation_id: &str) -> (n: usize)
        ensures
            n == count_of(
                self.sessions.entries@,
                conversation_id@,
                self.sessions.entries@.len() as int,
            ),
    {
        let mut n: usize = 0;
        let mut i: usize = 0;
        while i < self.sessions.entries.len()
            invariant
                i <= self.sessions.entries@.len(),
                n <= i,
                n == count_of(self.sessions.entries@, conversation_id@, i as int),
            decreases self.sessions.entries@.len() - i,
        {
            if text_eq(self.sessions.entries[i].1.conversation_id.as_str(), conversation_id) {
                n += 1;
            }
            i += 1;
        }
        n
    }

    /// Plans a terminal, and takes the next number for it.
    pub fn create(
        &mut self,
        scope: &TerminalScope,
        request: &TerminalCreateRequest,
        env_shell: Option<&str>,
    ) -> (r: Result<TerminalPlan, WebTerminalError>)
        requires
            old(self).wf(),
        ensures
            final(self).wf(),
            ({
                let mode = scope.remote_mode@;
                let env = crate::text::opt_str_view(env_shell);
                match request_error(*request, mode, env) {
                    Some(message) => *final(self) == *old(self) && (r matches Err(e) && e
                        is InvalidRequest && error_message(e) == message),
                    None => {
                        let left = fresh(old(self).sessions@, *scope);
                        match limit_reached(left, scope.conversation_id@) {
                            Some(message) => Self::drops_stale(*old(self), *final(self), *scope)
                                && (r matches Err(e) && e is LimitExceeded && error_message(e)
                                == message),
                            None => {
                                &&& r matches Ok(p)
                                &&& plan_for(p, *request, mode, env)
                                &&& p.terminal_id@ == terminal_name(old(self).next_index)
                                &&& final(self).next_index == (if old(self).next_index
                                    == u64::MAX {
                                    u64::MAX as int
                                } else {
                                    old(self).next_index + 1
                                })
                                &&& Self::drops_stale(
                                    *old(self),
                                    (TerminalManager {
                                        next_index: old(self).next_index,
                                        ..*final(self)
                                    }),
                                    *scope,
                                )
                            },
                        }
                    },
                }
            }),
    {
        let cols: u16 = bounded_size(request.cols, DEFAULT_COLS, MIN_COLS, MAX_COLS);
        let rows: u16 = bounded_size(request.rows, DEFAULT_ROWS, MIN_ROWS, MAX_ROWS);
        let shell: String = match resolve_shell(&request.shell, &scope.remote_mode, env_shell) {
            Ok(s) => s,
            Err(e) => {
                return Err(e);
            },
        };
        let cwd_request: Option<String> = match normalize_relative_cwd(&request.cwd) {
            Ok(c) => c,
            Err(e) => {
                return Err(e);
            },
        };
        self.reset_stale_terminals(scope);
        proof {
            lemma_counts(self.sessions, scope.conversation_id@);
        }
        if self.sessions.len() >= MAX_TERMINALS_TOTAL {
            return Err(
                WebTerminalError::LimitExceeded(
                    "web terminal limit exceeded: at most 128 terminals total".to_owned(),
                ),
            );
        }
        if self.count_conversation(scope.conversation_id.as_str())
            >= MAX_TERMINALS_PER_CONVERSATION {
            return Err(
                WebTerminalError::LimitExceeded(
                    "web terminal limit exceeded: at most 8 terminals per conversation".to_owned(),
                ),
            );
        }
        let terminal_id: String = make_terminal_name(self.next_index);
        if self.next_index < u64::MAX {
            self.next_index = self.next_index + 1;
        }
        Ok(TerminalPlan { terminal_id, shell, cwd_request, cols, rows })
    }

    /// Notes a terminal that was opened in a directory.
    pub fn opened(&mut self, scope: &TerminalScope, plan: TerminalPlan, cwd: String, now_ms: u128) -> (r:
        TerminalSummary)
        requires
            old(self).wf(),
        ensures
            final(self).wf(),
            final(self).next_index == old(self).next_index,
            final(self).dropped == old(self).dropped,
            final(self).sessions@.dom() == old(self).sessions@.dom().insert(plan.terminal_id@),
            forall|k: Seq<char>|
                k != plan.terminal_id@ && old(self).sessions@.contains_key(k)
                    ==> #[trigger] final(self).sessions@[k] == old(self).sessions@[k],
            ({
                let t = final(self).sessions@[plan.terminal_id@];
                &&& t.terminal_id@ == plan.terminal_id@
                &&& t.conversation_id@ == scope.conversation_id@
                &&& t.remote_mode@ == scope.remote_mode@
                &&& t.shell == plan.shell
                &&& t.cwd == cwd
                &&& t.cols == plan.cols
                &&& t.rows == plan.rows
                &&& t.running
                &&& t.created_ms == now_ms
                &&& t.updated_ms == now_ms
                &&& t.output.start_offset == 0 && t.output.next_offset == 0
                &&& t.output.bytes@.len() == 0
                &&& summarizes(r, t)
            }),
    {
        let id: String = plan.terminal_id.clone();
        let t = TerminalSession {
            terminal_id: plan.terminal_id,
            conversation_id: scope.conversation_id.clone(),
            remote_mode: scope.remote_mode.copy(),
            shell: plan.shell,
            cwd,
            cols: plan.cols,
            rows: plan.rows,
            running: true,
            created_ms: now_ms,
            updated_ms: now_ms,
            output: OutputBuffer::new(),
        };
        let summary: TerminalSummary = t.summary();
        self.sessions.insert(id.as_str(), t);
        assert(self.sessions@.dom() =~= old(self).sessions@.dom().insert(id@));
        summary
    }

    /// Whether input can be written to a terminal.
    pub fn check_input(&mut self, scope: &TerminalScope, terminal_id: &str) -> (r: Result<
        (),
        WebTerminalError,
    >)
        requires
            old(self).wf(),
        ensures
            final(self).wf(),
            Self::drops_stale(*old(self), *final(self), *scope),
            match r {
                Ok(_) => final(self).has(scope.conversation_id@, terminal_id@)
                    && final(self).sessions@[terminal_id@].running,
                Err(e) => if final(self).has(scope.conversation_id@, terminal_id@) {
                    !final(self).sessions@[terminal_id@].running && e is InvalidRequest
                        && error_message(e) == "terminal is not running"@
                } else {
                    e is NotFound
                },
            },
    {
        self.reset_stale_terminals(scope);
        match self.find(scope.conversation_id.as_str(), terminal_id) {
            Ok(t) => {
                if t.running {
                    Ok(())
                } else {
                    Err(WebTerminalError::InvalidRequest("terminal is not running".to_owned()))
                }
            },
            Err(e) => Err(e),
        }
    }

    /// The size that a terminal is to get.
    pub fn check_resize(
        &mut self,
        scope: &TerminalScope,
        terminal_id: &str,
        request: TerminalResizeRequest,
    ) -> (r: Result<(u16, u16), WebTerminalError>)
        requires
            old(self).wf(),
        ensures
            final(self).wf(),
            Self::drops_stale(*old(self), *final(self), *scope),
            match r {
                Ok((cols, rows)) => final(self).has(scope.conversation_id@, terminal_id@) && cols
                    == clamped(request.cols as int, MIN_COLS as int, MAX_COLS as int) && rows
                    == clamped(request.rows as int, MIN_ROWS as int, MAX_ROWS as int),
                Err(e) => !final(self).has(scope.conversation_id@, terminal_id@) && e is NotFound,
            },
    {
        self.reset_stale_terminals(scope);
        match self.find(scope.conversation_id.as_str(), terminal_id) {
            Ok(_) => Ok(
                (
                    bounded_size(Some(request.cols), DEFAULT_COLS, MIN_COLS, MAX_COLS),
                    bounded_size(Some(request.rows), DEFAULT_ROWS, MIN_ROWS, MAX_ROWS),
                ),
            ),
            Err(e) => Err(e),
        }
    }

    /// Adds output of a terminal.
    pub fn append_output(&mut self, terminal_id: &str, data: &[u8], now_ms: u128)
        requires
            old(self).wf(),
        ensures
            final(self).wf(),
            final(self).next_index == old(self).next_index,
            final(self).dropped == old(self).dropped,
            !old(self).sessions@.contains_key(terminal_id@) ==> *final(self) == *old(self),
            old(self).sessions@.contains_key(terminal_id@) ==> {
                let a = old(self).sessions@[terminal_id@];
                let b = final(self).sessions@[terminal_id@];
                &&& final(self).sessions@ == old(self).sessions@.insert(terminal_id@, b)
                &&& b == (TerminalSession { output: b.output, updated_ms: now_ms, ..a })
                &&& b.output.is_extended(a.output, data@)
            },
    {
        if self.sessions.contains_key(terminal_id) {
            let t: &mut TerminalSession = self.sessions.value_mut(terminal_id);
            t.output.append(data);
            t.updated_ms = now_ms;
        }
    }

    /// Notes that a terminal was used.
    pub fn touch(&mut self, terminal_id: &str, now_ms: u128)
        requires
            old(self).wf(),
        ensures
            final(self).wf(),
            final(self).next_index == old(self).next_index,
            final(self).dropped == old(self).dropped,
            !old(self).sessions@.contains_key(terminal_id@) ==> *final(self) == *old(self),
            old(self).sessions@.contains_key(terminal_id@) ==> final(self).sessions@ == old(
                self,
            ).sessions@.insert(
                terminal_id@,
                (TerminalSession { updated_ms: now_ms, ..old(self).sessions@[terminal_id@] }),
            ),
    {
        if self.sessions.contains_key(terminal_id) {
            let t: &mut TerminalSession = self.sessions.value_mut(terminal_id);
            t.updated_ms = now_ms;
        }
    }

    /// Notes the new size of a terminal.
    pub fn resized(&mut self, terminal_id: &str, cols: u16, rows: u16, now_ms: u128)
        requires
            old(self).wf(),
        ensures
            final(self).wf(),
            final(self).next_index == old(self).next_index,
            final(self).dropped == old(self).dropped,
            !old(self).sessions@.contains_key(terminal_id@) ==> *final(self) == *old(self),
            old(self).sessions@.contains_key(terminal_id@) ==> final(self).sessions@ == old(
                self,
            ).sessions@.insert(
                terminal_id@,
                (TerminalSession {
                    updated_ms: now_ms,
                    cols,
                    rows,
                    ..old(self).sessions@[terminal_id@]
                }),
            ),
    {
        if self.sessions.contains_key(terminal_id) {
            let t: &mut TerminalSession = self.sessions.value_mut(terminal_id);
            t.updated_ms = now_ms;
            t.cols = cols;
            t.rows = rows;
        }
    }

    /// Notes that a terminal has ended.
    pub fn finished(&mut self, terminal_id: &str, now_ms: u128)
        requires
            old(self).wf(),
        ensures
            final(self).wf(),
            final(self).next_index == old(self).next_index,
            final(self).dropped == old(self).dropped,
            !old(self).sessions@.contains_key(terminal_id@) ==> *final(self) == *old(self),
            old(self).sessions@.contains_key(terminal_id@) ==> final(self).sessions@ == old(
                self,
            ).sessions@.insert(terminal_id@, ended(old(self).sessions@[terminal_id@], now_ms)),
    {
        if self.sessions.contains_key(terminal_id) {
            let t: &mut TerminalSession = self.sessions.value_mut(terminal_id);
            t.updated_ms = now_ms;
            t.running = false;
        }
    }

    /// Takes a terminal off the list. What runs in it is to be ended.
    pub fn terminate(&mut self, scope: &TerminalScope, terminal_id: &str, now_ms: u128) -> (r: Result<
        TerminalSummary,
        WebTerminalError,
    >)
        requires
            old(self).wf(),
        ensures
            final(self).wf(),
            ({
                let left = fresh(old(self).sessions@, *scope);
                if left.contains_key(terminal_id@) && left[terminal_id@].conversation_id@
                    == scope.conversation_id@ {
                    let t = left[terminal_id@];
                    &&& r matches Ok(s)
                    &&& summarizes(
                        s,
                        if t.running {
                            ended(t, now_ms)
                        } else {
                            t
                        },
                    )
                    &&& final(self).sessions@ == left.remove(terminal_id@)
                    &&& final(self).next_index == old(self).next_index
                    &&& views(final(self).dropped@) == views(old(self).dropped@) + stale_keys(
                        old(self).sessions.entries@,
                        *scope,
                        old(self).sessions.entries@.len() as int,
                    ) + (if t.running {
                        seq![terminal_id@]
                    } else {
                        Seq::empty()
                    })
                } else {
                    r matches Err(e) && e is NotFound && Self::drops_stale(
                        *old(self),
                        *final(self),
                        *scope,
                    )
                }
            }),
    {
        self.reset_stale_terminals(scope);
        let ghost mid = *self;
        let running: bool = match self.find(scope.conversation_id.as_str(), terminal_id) {
            Ok(t) => t.running,
            Err(e) => {
                return Err(e);
            },
        };
        if running {
            self.finished(terminal_id, now_ms);
            self.dropped.push(terminal_id.to_owned());
            assert(views(self.dropped@) =~= views(mid.dropped@) + seq![terminal_id@]);
        } else {
            assert(views(self.dropped@) =~= views(mid.dropped@) + Seq::empty());
        }
        let summary: TerminalSummary = match self.sessions.get(terminal_id) {
            Some(t) => t.summary(),
            None => {
                return Err(WebTerminalError::NotFound);
            },
        };
        self.sessions.remove(terminal_id);
        assert(self.sessions@ =~= mid.sessions@.remove(terminal_id@));
        Ok(summary)
    }
}

/// A terminal that has ended.
pub open spec fn ended(t: TerminalSession, now_ms: u128) -> TerminalSession {
    TerminalSession { updated_ms: now_ms, running: false, ..t }
}

fn bounded_size(value: Option<u16>, default: u16, min: u16, max: u16) -> (r: u16)
    ensures
        r == clamped(
            (match value {
                Some(v) => v,
                None => default,
            }) as int,
            min as int,
            max as int,
        ),
{
    let v: u16 = match value {
        Some(v) => v,
        None => default,
    };
    if v < min {
        min
    } else if v > max {
        max
    } else {
        v
    }
}

proof fn lemma_stale_keys(sessions: TextMap<TerminalSession>, scope: TerminalScope, n: int)
    requires
        sessions.wf(),
        0 <= n <= sessions.entries@.len(),
    ensures
        forall|k: Seq<char>| #[trigger]
            stale_keys(sessions.entries@, scope, n).contains(k) ==> sessions@.contains_key(k)
                && is_stale(sessions@[k], scope),
        forall|i: int|
            0 <= i < n && is_stale((#[trigger] sessions.entries@[i]).1, scope) ==> stale_keys(
                sessions.entries@,
                scope,
                n,
            ).contains(sessions.entries@[i].0@),
        n == sessions.entries@.len() ==> forall|k: Seq<char>| #[trigger]
            sessions@.contains_key(k) && is_stale(sessions@[k], scope) ==> stale_keys(
                sessions.entries@,
                scope,
                n,
            ).contains(k),
    decreases n,
{
    let entries = sessions.entries@;
    let keys = stale_keys(entries, scope, n);
    if n > 0 {
        lemma_stale_keys(sessions, scope, n - 1);
        let rest = stale_keys(entries, scope, n - 1);
        sessions.lemma_entry(n - 1);
        if is_stale(entries[n - 1].1, scope) {
            assert(keys[keys.len() - 1] == entries[n - 1].0@);
        }
        assert forall|k: Seq<char>| #[trigger] keys.contains(k) implies sessions@.contains_key(k)
            && is_stale(sessions@[k], scope) by {
            let x = choose|x: int| 0 <= x < keys.len() && keys[x] == k;
            if x < rest.len() {
                assert(rest[x] == k);
                assert(rest.contains(k));
            }
        }
        assert forall|i: int| 0 <= i < n && is_stale((#[trigger] entries[i]).1, scope) implies keys.contains(
            entries[i].0@,
        ) by {
            if i < n - 1 {
                assert(rest.contains(entries[i].0@));
                let x = choose|x: int| 0 <= x < rest.len() && rest[x] == entries[i].0@;
                assert(keys[x] == entries[i].0@);
            }
        }
    }
    if n == entries.len() {
        assert forall|k: Seq<char>| #[trigger]
            sessions@.contains_key(k) && is_stale(sessions@[k], scope) implies keys.contains(k) by {
            let i = choose|i: int| 0 <= i < entries.len() && #[trigger] entries[i].0@ == k;
            sessions.lemma_entry(i);
        }
    }
}

/// The ids of the sessions of a conversation among the first `n` entries.
spec fn first_ids(entries: Seq<(String, TerminalSession)>, conversation_id: Seq<char>, n: int) -> Set<
    Seq<char>,
>
    decreases n,
{
    if n <= 0 || n > entries.len() {
        Set::empty()
    } else {
        let rest = first_ids(entries, conversation_id, n - 1);
        if entries[n - 1].1.conversation_id@ == conversation_id {
            rest.insert(entries[n - 1].0@)
        } else {
            rest
        }
    }
}

proof fn lemma_first_ids(sessions: TextMap<TerminalSession>, conversation_id: Seq<char>, n: int)
    requires
        sessions.wf(),
        0 <= n <= sessions.entries@.len(),
    ensures
        first_ids(sessions.entries@, conversation_id, n).finite(),
        first_ids(sessions.entries@, conversation_id, n).len() == count_of(
            sessions.entries@,
            conversation_id,
            n,
        ),
        forall|k: Seq<char>| #[trigger]
            first_ids(sessions.entries@, conversation_id, n).contains(k) <==> exists|i: int|
                0 <= i < n && (#[trigger] sessions.entries@[i]).0@ == k
                    && sessions.entries@[i].1.conversation_id@ == conversation_id,
    decreases n,
{
    let e = sessions.entries@;
    if n > 0 {
        lemma_first_ids(sessions, conversation_id, n - 1);
        let rest = first_ids(e, conversation_id, n - 1);
        let last = e[n - 1].0@;
        if rest.contains(last) {
            let i = choose|i: int|
                0 <= i < n - 1 && (#[trigger] e[i]).0@ == last && e[i].1.conversation_id@
                    == conversation_id;
            assert(less(e[i].0@, e[n - 1].0@));
            less_is_irreflexive(last);
        }
        assert forall|k: Seq<char>| #[trigger]
            first_ids(e, conversation_id, n).contains(k) <==> exists|i: int|
                0 <= i < n && (#[trigger] e[i]).0@ == k && e[i].1.conversation_id@
                    == conversation_id by {
            if rest.contains(k) {
                let i = choose|i: int|
                    0 <= i < n - 1 && (#[trigger] e[i]).0@ == k && e[i].1.conversation_id@
                        == conversation_id;
                assert(e[i].0@ == k);
            }
            if e[n - 1].1.conversation_id@ == conversation_id && k == last {
                assert(e[n - 1].0@ == k);
            }
        }
    }
}

/// The numbers of sessions, in all and of a conversation, are those of the entries.
proof fn lemma_counts(sessions: TextMap<TerminalSession>, conversation_id: Seq<char>)
    requires
        sessions.wf(),
    ensures
        sessions@.dom().len() == sessions.entries@.len(),
        ids_of(sessions@, conversation_id).len() == count_of(
            sessions.entries@,
            conversation_id,
            sessions.entries@.len() as int,
        ),
{
    let e = sessions.entries@;
    let keys = sessions.keys();
    assert forall|i: int, j: int| 0 <= i < j < keys.len() implies keys[i] != keys[j] by {
        assert(less(e[i].0@, e[j].0@));
        less_is_irreflexive(e[i].0@);
    }
    assert(keys.no_duplicates());
    keys.unique_seq_to_set();
    assert forall|k: Seq<char>| #[trigger] sessions@.dom().contains(k) <==> keys.to_set().contains(
        k,
    ) by {
        if sessions@.contains_key(k) {
            let i = choose|i: int| 0 <= i < e.len() && #[trigger] e[i].0@ == k;
            assert(keys[i] == k);
        }
        if keys.contains(k) {
            let i = choose|i: int| 0 <= i < keys.len() && keys[i] == k;
            assert(e[i].0@ == k);
        }
    }
    assert(sessions@.dom() =~= keys.to_set());
    lemma_first_ids(sessions, conversation_id, e.len() as int);
    let own = first_ids(e, conversation_id, e.len() as int);
    assert forall|k: Seq<char>| #[trigger]
        ids_of(sessions@, conversation_id).contains(k) <==> own.contains(k) by {
        if sessions@.contains_key(k) {
            let i = choose|i: int| 0 <= i < e.len() && #[trigger] e[i].0@ == k;
            sessions.lemma_entry(i);
        }
        if own.contains(k) {
            let i = choose|i: int|
                0 <= i < e.len() && (#[trigger] e[i]).0@ == k && e[i].1.conversation_id@
                    == conversation_id;
            sessions.lemma_entry(i);
        }
    }
    assert(ids_of(sessions@, conversation_id) =~= own);
}

/// A terminal of a conversation whose tools moved elsewhere is dropped by the next request
/// of the conversation, and for good: no later request finds it, wherever the tools run.
pub proof fn moved_conversation_loses_its_terminals(
    before: TerminalManager,
    moved: TerminalManager,
    later: TerminalManager,
    scope: TerminalScope,
    later_scope: TerminalScope,
    terminal_id: Seq<char>,
)
    requires
        before.has(scope.conversation_id@, terminal_id),
        before.sessions@[terminal_id].remote_mode@ != scope.remote_mode@,
        TerminalManager::drops_stale(before, moved, scope),
        TerminalManager::drops_stale(moved, later, later_scope),
    ensures
        !moved.has(scope.conversation_id@, terminal_id),
        !later.has(scope.conversation_id@, terminal_id),
        !later.sessions@.contains_key(terminal_id),
{
}

/// A conversation whose tools moved elsewhere lists none of its earlier terminals.
pub proof fn moved_conversation_lists_nothing(
    before: TerminalManager,
    moved: TerminalManager,
    scope: TerminalScope,
    listed: Seq<TerminalSummary>,
)
    requires
        moved.wf(),
        forall|k: Seq<char>| #[trigger]
            before.has(scope.conversation_id@, k) ==> before.sessions@[k].remote_mode@
                != scope.remote_mode@,
        TerminalManager::drops_stale(before, moved, scope),
        moved.lists(scope.conversation_id@, listed),
    ensures
        listed.len() == 0,
{
    lemma_lists_nothing(before, moved, scope, moved.sessions.entries@.len() as int);
}

proof fn lemma_lists_nothing(
    before: TerminalManager,
    moved: TerminalManager,
    scope: TerminalScope,
    n: int,
)
    requires
        moved.wf(),
        forall|k: Seq<char>| #[trigger]
            before.has(scope.conversation_id@, k) ==> before.sessions@[k].remote_mode@
                != scope.remote_mode@,
        TerminalManager::drops_stale(before, moved, scope),
        0 <= n <= moved.sessions.entries@.len(),
    ensures
        moved.of_conversation(scope.conversation_id@, n).len() == 0,
    decreases n,
{
    if n > 0 {
        lemma_lists_nothing(before, moved, scope, n - 1);
        moved.sessions.lemma_entry(n - 1);
        let k = moved.sessions.entries@[n - 1].0@;
        assert(before.sessions@.contains_key(k));
        if moved.sessions.entries@[n - 1].1.conversation_id@ == scope.conversation_id@ {
            assert(before.has(scope.conversation_id@, k));
        }
    }
}

proof fn lemma_four_digits(n: nat)
    ensures
        digits_value(four_digits(n)) == n,
{
    reveal_strlit("000");
    reveal_strlit("00");
    reveal_strlit("0");
    decimal_has_its_value(n);
    if n < 10 {
        leading_zeros_count_nothing("000"@, decimal(n));
    } else if n < 100 {
        leading_zeros_count_nothing("00"@, decimal(n));
    } else if n < 1000 {
        leading_zeros_count_nothing("0"@, decimal(n));
    }
}

/// Terminals that are numbered differently have different ids.
pub proof fn terminal_ids_differ(a: u64, b: u64)
    requires
        a != b,
    ensures
        terminal_name(a) != terminal_name(b),
{
    lemma_four_digits(a as nat);
    lemma_four_digits(b as nat);
    let n = "terminal_"@.len() as int;
    if terminal_name(a) == terminal_name(b) {
        assert(terminal_name(a).skip(n) =~= four_digits(a as nat));
        assert(terminal_name(b).skip(n) =~= four_digits(b as nat));
    }
}

} // verus!
