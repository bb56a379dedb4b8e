//! Laws of terminals: which output is read, in which shell and where they run, and which
//! terminals a conversation sees.

use vstd::prelude::*;
use crate::encoding::shown_text;
use crate::loaders::partyclaw::without_trailing_slashes;
use crate::number::{all_digits, decimal, decimal_is_digits, digits_value};
use crate::path_laws::{all_names, is_name, path_is_its_names};
use crate::paths::path_parts;
use crate::terminal_sessions::{
    count_of, fresh, ids_of, is_output_of, is_stale, limit_reached, plan_for, request_error,
    stale_keys, terminal_name, TerminalManager, TerminalPlan, TerminalScope, TerminalSession,
};
use crate::text::{is_ascii_word, is_space, opt_view, trimmed, trimming_drops_the_space_around};
use crate::web_terminal::{
    clamped, error_message, is_shell_name, quoted, relative_cwd, remote_cwd, shell_for, terminal_words,
    OutputBuffer, RemoteView, TerminalCreateRequest, TerminalOutput,
    WebTerminalError,
};
use crate::words::{join_seq, join_then_split};

verus! {

// ---------------------------------------------------------------------------
// Output
// ---------------------------------------------------------------------------
/// A reading shows the bytes from its offset on, as many as it asks for and there are, and
/// no more than a mebibyte. Where the bytes at the offset were dropped, it begins with the
/// oldest that are kept.
pub proof fn reading_shows_the_bytes_from_its_offset(
    buffer: OutputBuffer,
    offset: u64,
    limit: usize,
)
    requires
        buffer.start_offset + buffer.bytes@.len() == buffer.next_offset,
        buffer.start_offset <= offset < buffer.next_offset,
        1 <= limit <= 1024 * 1024,
    ensures
        ({
            let a = offset - buffer.start_offset;
            let b = if a + limit < buffer.bytes@.len() {
                a + limit
            } else {
                buffer.bytes@.len() as int
            };
            &&& buffer.text_from(offset, limit) == shown_text(buffer.bytes@.subrange(a, b))
            &&& buffer.window(offset, limit) == (a, b)
        }),
        offset > 0 ==> buffer.text_from(0, limit) == buffer.text_from(buffer.start_offset, limit),
        buffer.text_from(buffer.next_offset, limit).len() == 0,
{
    let n = buffer.bytes@.len() as int;
    let a = offset - buffer.start_offset;
    let l = clamped(limit as int, 1, n);
    if a + l < n {
        assert(l == limit);
    } else {
        assert(a + limit >= n);
    }
}

// ---------------------------------------------------------------------------
// Shells and directories
// ---------------------------------------------------------------------------
/// Whether a text is a plain path or name of a command.
pub open spec fn is_command(s: Seq<char>) -> bool {
    s.len() > 0 && forall|i: int|
        0 <= i < s.len() ==> is_ascii_word(#[trigger] s[i]) || s[i] == '/' || s[i] == '_' || s[i]
            == '-' || s[i] == '.' || s[i] == '+'
}

proof fn lemma_command(s: Seq<char>)
    ensures
        is_shell_name(s) <==> is_command(s),
        is_command(s) ==> trimmed(s) == s,
{
    let e = Seq::<char>::empty();
    trimming_drops_the_space_around(e, e, e);
    assert(e + e + e =~= e);
    if s.len() == 0 {
        assert(s =~= e);
    }
    if is_command(s) {
        let n = s.len() - 1;
        assert(is_ascii_word(s[0]) || s[0] == '/' || s[0] == '_' || s[0] == '-' || s[0] == '.'
            || s[0] == '+');
        assert(is_ascii_word(s[n]) || s[n] == '/' || s[n] == '_' || s[n] == '-' || s[n] == '.'
            || s[n] == '+');
        trimming_drops_the_space_around(e, s, e);
        assert(e + s + e =~= s);
        assert forall|i: int| 0 <= i < s.len() implies crate::web_terminal::shell_char(
            #[trigger] s[i],
        ) by {
            assert(is_ascii_word(s[i]) || s[i] == '/' || s[i] == '_' || s[i] == '-' || s[i] == '.'
                || s[i] == '+');
        }
    }
    if is_shell_name(s) {
        assert forall|i: int| 0 <= i < s.len() implies is_ascii_word(#[trigger] s[i]) || s[i] == '/'
            || s[i] == '_' || s[i] == '-' || s[i] == '.' || s[i] == '+' by {
            assert(crate::web_terminal::shell_char(s[i]));
        }
    }
}

/// A terminal runs the shell that was asked for, if it is a plain command, else that of the
/// environment; on another machine it runs the shell of the user there.
pub proof fn terminal_runs_the_shell_it_was_asked_for(
    shell: Seq<char>,
    other: Seq<char>,
    mode: RemoteView,
    host: Seq<char>,
    cwd: Option<Seq<char>>,
    env: Option<Seq<char>>,
)
    requires
        is_command(shell),
        !is_command(other),
        other.len() > 0 && !is_space(other[0]) && !is_space(other.last()),
    ensures
        shell_for(Some(shell), mode, env) == Some(shell),
        shell_for(Some(other), mode, env) is None,
        shell_for(None, RemoteView::Selectable, Some(shell)) == Some(shell),
        shell_for(None, RemoteView::Selectable, Some(other)) == Some("/bin/sh"@),
        shell_for(None, RemoteView::Selectable, None) == Some("/bin/sh"@),
        shell_for(None, RemoteView::FixedSsh { host, cwd }, env) == Some("${SHELL:-sh}"@),
{
    lemma_command(shell);
    lemma_command(other);
    let e = Seq::<char>::empty();
    trimming_drops_the_space_around(e, other, e);
    assert(e + other + e =~= other);
}

/// A directory for a terminal is a path below the workspace: one that starts at the root or
/// leads upwards is refused.
pub proof fn directory_lies_below_the_workspace(parts: Seq<Seq<char>>, rest: Seq<char>)
    requires
        parts.len() > 0,
        all_names(parts),
        !is_space(parts[0][0]),
        !is_space(parts.last().last()),
        rest.len() > 0 && !is_space(rest.last()),
    ensures
        relative_cwd(Some(join_seq(parts, "/"@))) == Ok::<Option<Seq<char>>, Seq<char>>(
            Some(join_seq(parts, "/"@)),
        ),
        relative_cwd(Some(seq!['/'] + rest)) is Err,
        relative_cwd(Some("../"@ + join_seq(parts, "/"@))) is Err,
        relative_cwd(None) == Ok::<Option<Seq<char>>, Seq<char>>(None),
{
    let e = Seq::<char>::empty();
    let s = join_seq(parts, "/"@);
    reveal_strlit("/");
    assert("/"@ =~= seq!['/']);
    path_is_its_names(parts);
    lemma_join_ends(parts);
    trimming_drops_the_space_around(e, s, e);
    assert(e + s + e =~= s);
    assert(is_name(parts[0]));
    assert(s[0] != '/');
    if path_parts(s).contains(".."@) {
        let i = choose|i: int| 0 <= i < parts.len() && parts[i] == ".."@;
        assert(is_name(parts[i]));
    }
    let r = seq!['/'] + rest;
    trimming_drops_the_space_around(e, r, e);
    assert(e + r + e =~= r);
    // A path that leads upwards.
    reveal_strlit("../");
    reveal_strlit("..");
    let up = "../"@ + s;
    trimming_drops_the_space_around(e, up, e);
    assert(e + up + e =~= up);
    let all = seq![".."@] + parts;
    assert forall|i: int| 0 <= i < all.len() implies !(#[trigger] all[i]).contains('/') by {
        if i > 0 {
            assert(is_name(parts[i - 1]));
        }
    }
    assert(all.drop_first() =~= parts);
    assert(join_seq(all, "/"@) =~= up);
    join_then_split(all, '/');
    lemma_counted(all, 0);
}

proof fn lemma_counted(parts: Seq<Seq<char>>, i: int)
    requires
        0 <= i < parts.len(),
        parts[i] == ".."@,
    ensures
        crate::paths::counting(parts).contains(".."@),
    decreases parts.len(),
{
    reveal_strlit("..");
    reveal_strlit(".");
    assert(".."@.len() != "."@.len());
    let rest = parts.drop_last();
    let all = crate::paths::counting(parts);
    if i == parts.len() - 1 {
        assert(all[all.len() - 1] == ".."@);
    } else {
        lemma_counted(rest, i);
        let c = crate::paths::counting(rest);
        let k = choose|k: int| 0 <= k < c.len() && c[k] == ".."@;
        assert(all[k] == ".."@);
    }
}

proof fn lemma_join_ends(parts: Seq<Seq<char>>)
    requires
        parts.len() > 0,
        forall|i: int| 0 <= i < parts.len() ==> (#[trigger] parts[i]).len() > 0,
    ensures
        join_seq(parts, "/"@).len() > 0,
        join_seq(parts, "/"@)[0] == parts[0][0],
        join_seq(parts, "/"@).last() == parts.last().last(),
    decreases parts.len(),
{
    if parts.len() > 1 {
        let rest = parts.drop_first();
        assert forall|i: int| 0 <= i < rest.len() implies (#[trigger] rest[i]).len() > 0 by {
            assert(rest[i] == parts[i + 1]);
        }
        lemma_join_ends(rest);
        assert(rest.last() == parts.last());
    }
}

proof fn lemma_no_slashes(b: Seq<char>)
    requires
        b.len() > 0,
        b.last() != '/',
    ensures
        without_trailing_slashes(b) == b,
{
}

/// On another machine a terminal runs in the directory that is set there, or at home, and
/// below it where a path is asked for.
pub proof fn remote_directory_is_below_the_set_one(base: Seq<char>, path: Seq<char>)
    requires
        base.len() > 0 && !is_space(base[0]) && !is_space(base.last()),
        base.last() != '/',
        path.len() > 0,
    ensures
        remote_cwd(Some(base), Some(path)) == base + "/"@ + path,
        remote_cwd(Some(base), None) == base,
        remote_cwd(None, None) == "~"@,
        remote_cwd(None, Some(path)) == "~"@ + "/"@ + path,
{
    let e = Seq::<char>::empty();
    trimming_drops_the_space_around(e, base, e);
    assert(e + base + e =~= base);
    lemma_no_slashes(base);
    reveal_strlit("~");
    lemma_no_slashes("~"@);
}

/// A terminal here runs its shell; one on another machine runs a command over `ssh` on that
/// machine, which sets the kind of terminal, changes to the directory and runs the shell.
pub proof fn terminal_runs_where_it_belongs(
    host: Seq<char>,
    set: Option<Seq<char>>,
    cwd: Seq<char>,
    shell: Seq<char>,
)
    ensures
        terminal_words(RemoteView::Selectable, cwd, shell) == seq![shell],
        ({
            let words = terminal_words(RemoteView::FixedSsh { host, cwd: set }, cwd, shell);
            &&& words.len() == 5
            &&& words[0] == "ssh"@ && words[1] == "-tt"@ && words[2] == host && words[3] == "--"@
            &&& words[4]
                == "export TERM=xterm-256color COLORTERM=truecolor TERM_PROGRAM=Stellacode; cd "@
                + quoted(cwd) + " && exec "@ + shell + " -l"@
        }),
{
}

/// A terminal has the size that was asked for within its bounds, else the usual one.
pub proof fn terminal_has_the_size_it_was_asked_for(
    p: TerminalPlan,
    request: TerminalCreateRequest,
    mode: RemoteView,
    env: Option<Seq<char>>,
)
    requires
        plan_for(p, request, mode, env),
    ensures
        20 <= p.cols <= 400,
        5 <= p.rows <= 120,
        request.cols matches Some(c) ==> 20 <= c <= 400 ==> p.cols == c,
        request.cols matches Some(c) ==> c < 20 ==> p.cols == 20,
        request.cols matches Some(c) ==> c > 400 ==> p.cols == 400,
        request.rows matches Some(r) ==> 5 <= r <= 120 ==> p.rows == r,
        request.rows matches Some(r) ==> r < 5 ==> p.rows == 5,
        request.rows matches Some(r) ==> r > 120 ==> p.rows == 120,
        request.cols is None ==> p.cols == 120,
        request.rows is None ==> p.rows == 30,
{
}

// ---------------------------------------------------------------------------
// The terminals of a conversation
// ---------------------------------------------------------------------------
proof fn lemma_of_conversation(m: TerminalManager, conversation_id: Seq<char>, n: int)
    requires
        0 <= n <= m.sessions.entries@.len(),
    ensures
        forall|i: int|
            0 <= i < n && (#[trigger] m.sessions.entries@[i]).1.conversation_id@ == conversation_id
                ==> m.of_conversation(conversation_id, n).contains(m.sessions.entries@[i].1),
        forall|k: int|
            0 <= k < m.of_conversation(conversation_id, n).len() ==> (#[trigger] m.of_conversation(
                conversation_id,
                n,
            )[k]).conversation_id@ == conversation_id,
    decreases n,
{
    if n > 0 {
        lemma_of_conversation(m, conversation_id, n - 1);
        let rest = m.of_conversation(conversation_id, n - 1);
        let all = m.of_conversation(conversation_id, n);
        assert forall|i: int|
            0 <= i < n && (#[trigger] m.sessions.entries@[i]).1.conversation_id@
                == conversation_id implies all.contains(m.sessions.entries@[i].1) by {
            let x = m.sessions.entries@[i].1;
            if i < n - 1 {
                assert(rest.contains(x));
                let k = choose|k: int| 0 <= k < rest.len() && rest[k] == x;
                assert(all[k] == x);
            } else {
                assert(all[all.len() - 1] == x);
            }
        }
        assert forall|k: int| 0 <= k < all.len() implies (#[trigger] all[k]).conversation_id@
            == conversation_id by {
            if k < rest.len() {
                assert(all[k] == rest[k]);
            }
        }
    }
}

/// A conversation lists all its terminals and none of another conversation.
pub proof fn conversation_lists_its_own_terminals(
    m: TerminalManager,
    conversation_id: Seq<char>,
    listed: Seq<crate::web_terminal::TerminalSummary>,
    i: int,
    k: int,
)
    requires
        m.lists(conversation_id, listed),
        0 <= i < m.sessions.entries@.len(),
        0 <= k < listed.len(),
    ensures
        m.sessions.entries@[i].1.conversation_id@ == conversation_id ==> exists|j: int|
            0 <= j < listed.len() && (#[trigger] listed[j]).terminal_id@
                == m.sessions.entries@[i].1.terminal_id@,
        listed[k].conversation_id@ == conversation_id,
{
    let n = m.sessions.entries@.len() as int;
    let own = m.of_conversation(conversation_id, n);
    lemma_of_conversation(m, conversation_id, n);
    if m.sessions.entries@[i].1.conversation_id@ == conversation_id {
        let x = m.sessions.entries@[i].1;
        assert(own.contains(x));
        let j = choose|j: int| 0 <= j < own.len() && own[j] == x;
        assert(crate::terminal_sessions::summarizes(listed[j], own[j]));
    }
    assert(crate::terminal_sessions::summarizes(listed[k], own[k]));
}

/// Where the tools of a conversation run elsewhere, its terminals are dropped: those that
/// were opened under another mode, and no others.
pub proof fn only_moved_terminals_are_dropped(
    m: Map<Seq<char>, TerminalSession>,
    scope: TerminalScope,
    id: Seq<char>,
)
    requires
        m.contains_key(id),
    ensures
        m[id].conversation_id@ != scope.conversation_id@ ==> fresh(m, scope).contains_key(id)
            && fresh(m, scope)[id] == m[id],
        m[id].remote_mode@ == scope.remote_mode@ ==> fresh(m, scope).contains_key(id) && fresh(
            m,
            scope,
        )[id] == m[id],
        m[id].conversation_id@ == scope.conversation_id@ && m[id].remote_mode@
            != scope.remote_mode@ ==> !fresh(m, scope).contains_key(id),
{
}

/// What runs in a terminal that is dropped is ended, and nothing else is.
pub proof fn dropped_terminals_are_ended(
    entries: Seq<(String, TerminalSession)>,
    scope: TerminalScope,
    i: int,
    k: int,
) -> (j: int)
    requires
        0 <= i < entries.len(),
        0 <= k < stale_keys(entries, scope, entries.len() as int).len(),
    ensures
        entries[i].1.conversation_id@ == scope.conversation_id@ && entries[i].1.remote_mode@
            != scope.remote_mode@ ==> stale_keys(entries, scope, entries.len() as int).contains(
            entries[i].0@,
        ),
        0 <= j < entries.len(),
        entries[j].0@ == stale_keys(entries, scope, entries.len() as int)[k],
        entries[j].1.conversation_id@ == scope.conversation_id@ && entries[j].1.remote_mode@
            != scope.remote_mode@,
{
    lemma_stale_found(entries, scope, entries.len() as int, i);
    lemma_stale(entries, scope, entries.len() as int, k)
}

proof fn lemma_stale_found(
    entries: Seq<(String, TerminalSession)>,
    scope: TerminalScope,
    n: int,
    i: int,
)
    requires
        0 <= i < n <= entries.len(),
    ensures
        is_stale(entries[i].1, scope) ==> stale_keys(entries, scope, n).contains(entries[i].0@),
    decreases n,
{
    let all = stale_keys(entries, scope, n);
    if is_stale(entries[i].1, scope) {
        if i == n - 1 {
            assert(all[all.len() - 1] == entries[i].0@);
        } else {
            lemma_stale_found(entries, scope, n - 1, i);
            let rest = stale_keys(entries, scope, n - 1);
            let k = choose|k: int| 0 <= k < rest.len() && rest[k] == entries[i].0@;
            assert(all[k] == entries[i].0@);
        }
    }
}

proof fn lemma_stale(
    entries: Seq<(String, TerminalSession)>,
    scope: TerminalScope,
    n: int,
    k: int,
) -> (j: int)
    requires
        0 <= n <= entries.len(),
        0 <= k < stale_keys(entries, scope, n).len(),
    ensures
        0 <= j < n,
        entries[j].0@ == stale_keys(entries, scope, n)[k],
        is_stale(entries[j].1, scope),
    decreases n,
{
    if k < stale_keys(entries, scope, n - 1).len() {
        lemma_stale(entries, scope, n - 1, k)
    } else {
        n - 1
    }
}

/// A terminal is refused where there are 128 of them, or 8 of its conversation; where there
/// are fewer it is not.
pub proof fn terminals_are_limited(
    m: Map<Seq<char>, TerminalSession>,
    conversation_id: Seq<char>,
    own: Set<Seq<char>>,
)
    requires
        forall|k: Seq<char>| #[trigger]
            own.contains(k) <==> m.contains_key(k) && m[k].conversation_id@ == conversation_id,
    ensures
        m.dom().len() < 128 && own.len() < 8 ==> limit_reached(m, conversation_id) is None,
        m.dom().len() >= 128 ==> limit_reached(m, conversation_id) is Some,
        own.len() >= 8 ==> limit_reached(m, conversation_id) is Some,
{
    assert(ids_of(m, conversation_id) =~= own);
}

/// The id of a terminal is its number behind a fixed word, in four digits or more.
pub proof fn terminal_is_named_by_its_number(index: u64)
    ensures
        ({
            let digits = terminal_name(index).skip(9);
            &&& "terminal_"@.is_prefix_of(terminal_name(index))
            &&& digits.len() >= 4
            &&& all_digits(digits)
            &&& digits_value(digits) == index
        }),
{
    reveal_strlit("terminal_");
    reveal_strlit("000");
    reveal_strlit("00");
    reveal_strlit("0");
    let n = index as nat;
    let d = decimal(n);
    decimal_is_digits(n);
    crate::number::decimal_has_its_value(n);
    let t = terminal_name(index);
    assert(t.subrange(0, 9) =~= "terminal_"@);
    let digits = t.skip(9);
    assert(digits =~= crate::terminal_sessions::four_digits(n));
    if n < 10 {
        crate::number::leading_zeros_count_nothing("000"@, d);
        assert(d.len() == 1);
    } else if n < 100 {
        crate::number::leading_zeros_count_nothing("00"@, d);
        assert(decimal(n / 10).len() == 1);
    } else if n < 1000 {
        crate::number::leading_zeros_count_nothing("0"@, d);
        assert(decimal(n / 10).len() == decimal(n / 10 / 10).len() + 1);
    } else {
        assert(d.len() == decimal(n / 10).len() + 1);
        assert(decimal(n / 10).len() == decimal(n / 10 / 10).len() + 1);
        assert(decimal(n / 10 / 10).len() == decimal(n / 10 / 10 / 10).len() + 1);
        decimal_is_digits(n / 10 / 10 / 10);
    }
    assert forall|i: int| 0 <= i < digits.len() implies crate::text::is_digit(
        #[trigger] digits[i],
    ) by {
        let z = digits.len() - d.len();
        if i >= z {
            assert(digits[i] == d[i - z]);
        } else {
            assert(digits[i] == '0');
        }
    }
}

/// What is read of a terminal names it and says whether it runs, where the reading begins and
/// how many bytes from there on were dropped; the next reading goes on behind the last byte.
pub proof fn output_names_its_terminal(
    r: TerminalOutput,
    t: TerminalSession,
    offset: u64,
    limit_bytes: usize,
)
    requires
        is_output_of(r, t, offset, limit_bytes),
    ensures
        r.terminal_id@ == t.terminal_id@,
        r.running == t.running,
        r.offset == offset,
        r.buffer_start_offset == t.output.start_offset,
        r.data@ == t.output.text_from(offset, limit_bytes),
        r.encoding@ == "utf8_lossy"@,
        offset >= t.output.start_offset ==> r.dropped_bytes == 0,
        offset < t.output.start_offset ==> r.dropped_bytes + offset == t.output.start_offset,
        t.output.start_offset + t.output.window(offset, limit_bytes).1 <= u64::MAX
            ==> r.next_offset == t.output.start_offset + t.output.window(offset, limit_bytes).1,
{
}

/// Each terminal of a conversation counts once, and those of others do not.
pub proof fn own_terminals_are_counted(
    entries: Seq<(String, TerminalSession)>,
    entry: (String, TerminalSession),
    other: Seq<char>,
)
    requires
        other != entry.1.conversation_id@,
    ensures
        ({
            let n = entries.len() as int;
            let all = entries.push(entry);
            &&& count_of(all, entry.1.conversation_id@, n + 1) == count_of(
                entries,
                entry.1.conversation_id@,
                n,
            ) + 1
            &&& count_of(all, other, n + 1) == count_of(entries, other, n)
            &&& count_of(Seq::empty(), other, 0) == 0
        }),
{
    lemma_count_of_first(entries, entry, other, entries.len() as int);
    lemma_count_of_first(entries, entry, entry.1.conversation_id@, entries.len() as int);
}

proof fn lemma_count_of_first(
    entries: Seq<(String, TerminalSession)>,
    entry: (String, TerminalSession),
    id: Seq<char>,
    n: int,
)
    requires
        0 <= n <= entries.len(),
    ensures
        count_of(entries.push(entry), id, n) == count_of(entries, id, n),
    decreases n,
{
    if n > 0 {
        lemma_count_of_first(entries, entry, id, n - 1);
    }
}

/// A terminal is refused for a shell that is no name, and for a directory that lies outside
/// of the workspace; nothing else stands against it.
pub proof fn unusable_requests_are_refused(
    request: TerminalCreateRequest,
    mode: RemoteView,
    env_shell: Option<Seq<char>>,
)
    ensures
        request_error(request, mode, env_shell) is None <==> shell_for(
            opt_view(request.shell),
            mode,
            env_shell,
        ) is Some && relative_cwd(opt_view(request.cwd)) is Ok,
        shell_for(opt_view(request.shell), mode, env_shell) is None ==> request_error(
            request,
            mode,
            env_shell,
        ) == Some("terminal shell must be a simple path or command name"@),
        shell_for(opt_view(request.shell), mode, env_shell) is Some && relative_cwd(
            opt_view(request.cwd),
        ) is Err ==> request_error(request, mode, env_shell) == Some(
            relative_cwd(opt_view(request.cwd))->Err_0,
        ),
{
}

/// An error of a terminal is told in its own words.
pub proof fn terminal_errors_are_told(m: String)
    ensures
        error_message(WebTerminalError::InvalidRequest(m)) == m@,
        error_message(WebTerminalError::LimitExceeded(m)) == m@,
        error_message(WebTerminalError::Internal(m)) == m@,
        error_message(WebTerminalError::NotFound) == "terminal_not_found"@,
{
}

} // verus!
