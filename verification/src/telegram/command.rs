//! Commands in chat messages.

use vstd::prelude::*;
use crate::channels::{
    opt_control, parse_reasoning_control_argument, reasoning_control, ControlView,
    ConversationControl,
};
use crate::config::SandboxMode;
use crate::text::{
    cat3, chars_of, find_char, find_space, index_of, index_of_space, text_eq, trim, trimmed,
};
use crate::words::{lower_seq, to_lower};

verus! {

/// The text up to the first white space, and what follows behind it.
pub open spec fn first_word(t: Seq<char>) -> (Seq<char>, Seq<char>) {
    let i = find_space(t);
    if i < t.len() {
        (t.take(i), t.skip(i + 1))
    } else {
        (t, Seq::empty())
    }
}

pub fn split_first_word(t: &str) -> (r: (&str, &str))
    ensures
        (r.0@, r.1@) == first_word(t@),
{
    let chars: Vec<char> = chars_of(t);
    let n: usize = chars.len();
    assert(chars@.skip(0) =~= chars@);
    let i: usize = index_of_space(chars.as_slice(), 0);
    if i < n {
        assert(t@.subrange(0, i as int) =~= t@.take(i as int));
        assert(t@.subrange(i + 1, n as int) =~= t@.skip(i + 1));
        (t.substring_char(0, i), t.substring_char(i + 1, n))
    } else {
        proof {
            assert(t@.subrange(0, n as int) =~= t@);
            assert(t@.subrange(n as int, n as int) =~= Seq::empty());
        }
        (t.substring_char(0, n), t.substring_char(n, n))
    }
}

/// A command without the name of the bot that it is addressed to.
pub open spec fn command_base(w: Seq<char>) -> Seq<char> {
    w.take(find_char(w, '@'))
}

pub fn strip_bot_name(w: &str) -> (r: &str)
    ensures
        r@ == command_base(w@),
{
    let chars: Vec<char> = chars_of(w);
    let i: usize = index_of(chars.as_slice(), '@');
    assert(w@.subrange(0, i as int) =~= w@.take(i as int));
    w.substring_char(0, i)
}

pub open spec fn remote_control(argument: Seq<char>) -> ControlView {
    let (first, rest) = first_word(trimmed(argument));
    let host = trimmed(first);
    let path = trimmed(rest);
    if host.len() == 0 || path.len() == 0 {
        ControlView::InvalidRemote { reason: "remote 命令缺少 host 或 path。"@ }
    } else {
        ControlView::SetRemote { host, path }
    }
}

fn parse_remote_control(argument: &str) -> (r: ConversationControl)
    ensures
        r@ == remote_control(argument@),
{
    let (first, rest) = split_first_word(trim(argument));
    let host: &str = trim(first);
    let path: &str = trim(rest);
    if host.is_empty() || path.is_empty() {
        ConversationControl::InvalidRemote { reason: "remote 命令缺少 host 或 path。".to_owned() }
    } else {
        ConversationControl::SetRemote { host: host.to_owned(), path: path.to_owned() }
    }
}

/// The sandbox mode that a word in lower case names: one of the modes, or none for the
/// configured one.
pub open spec fn sandbox_word(w: Seq<char>) -> Option<Option<SandboxMode>> {
    if w == "default"@ || w == "global"@ {
        Some(None)
    } else if w == "subprocess"@ || w == "off"@ || w == "none"@ || w == "disabled"@ {
        Some(Some(SandboxMode::Subprocess))
    } else if w == "bubblewrap"@ || w == "bwrap"@ {
        Some(Some(SandboxMode::Bubblewrap))
    } else {
        None
    }
}

pub open spec fn sandbox_control(argument: Seq<char>) -> ControlView {
    let a = trimmed(argument);
    match sandbox_word(lower_seq(a)) {
        Some(mode) => ControlView::SetSandbox { mode },
        None => ControlView::InvalidSandbox { reason: "未知 sandbox 模式 `"@ + a + "`。"@ },
    }
}

pub fn parse_sandbox_control(argument: &str) -> (r: ConversationControl)
    ensures
        r@ == sandbox_control(argument@),
{
    let argument: &str = trim(argument);
    let lower: String = to_lower(argument);
    let w: &str = lower.as_str();
    if text_eq(w, "default") || text_eq(w, "global") {
        ConversationControl::SetSandbox { mode: None }
    } else if text_eq(w, "subprocess") || text_eq(w, "off") || text_eq(w, "none") || text_eq(
        w,
        "disabled",
    ) {
        ConversationControl::SetSandbox { mode: Some(SandboxMode::Subprocess) }
    } else if text_eq(w, "bubblewrap") || text_eq(w, "bwrap") {
        ConversationControl::SetSandbox { mode: Some(SandboxMode::Bubblewrap) }
    } else {
        ConversationControl::InvalidSandbox {
            reason: cat3("未知 sandbox 模式 `", argument, "`。"),
        }
    }
}

/// What a command with its argument asks for, if it is a command. Commands that take no
/// argument are none with one.
pub open spec fn command_control(command: Seq<char>, argument: Seq<char>) -> Option<ControlView> {
    let bare = argument.len() == 0;
    if command == "/continue"@ && bare {
        Some(ControlView::Continue)
    } else if command == "/cancel"@ && bare {
        Some(ControlView::Cancel)
    } else if command == "/compact"@ && bare {
        Some(ControlView::Compact)
    } else if command == "/status"@ && bare {
        Some(ControlView::ShowStatus)
    } else if command == "/model"@ {
        if bare {
            Some(ControlView::ShowModel)
        } else {
            Some(ControlView::SwitchModel { model_name: argument })
        }
    } else if command == "/reasoning"@ {
        Some(reasoning_control(argument))
    } else if command == "/remote"@ {
        if bare {
            Some(ControlView::ShowRemote)
        } else if lower_seq(argument) == "off"@ {
            Some(ControlView::DisableRemote)
        } else {
            Some(remote_control(argument))
        }
    } else if command == "/sandbox"@ {
        if bare {
            Some(ControlView::ShowSandbox)
        } else {
            Some(sandbox_control(argument))
        }
    } else {
        None
    }
}

/// What a message asks for besides talking, if it is a command.
pub open spec fn message_control(text: Seq<char>) -> Option<ControlView> {
    let t = trimmed(text);
    let (first, rest) = first_word(t);
    if t.len() == 0 {
        None
    } else {
        command_control(command_base(first), trimmed(rest))
    }
}

/// Reads a message as a command.
pub fn parse_conversation_control(text: &str) -> (r: Option<ConversationControl>)
    ensures
        opt_control(r) == message_control(text@),
{
    let t: &str = trim(text);
    if t.is_empty() {
        return None;
    }
    let (first, rest) = split_first_word(t);
    let argument: &str = trim(rest);
    let command: &str = strip_bot_name(first);
    let bare: bool = argument.is_empty();
    if text_eq(command, "/continue") && bare {
        Some(ConversationControl::Continue)
    } else if text_eq(command, "/cancel") && bare {
        Some(ConversationControl::Cancel)
    } else if text_eq(command, "/compact") && bare {
        Some(ConversationControl::Compact)
    } else if text_eq(command, "/status") && bare {
        Some(ConversationControl::ShowStatus)
    } else if text_eq(command, "/model") {
        if bare {
            Some(ConversationControl::ShowModel)
        } else {
            Some(ConversationControl::SwitchModel { model_name: argument.to_owned() })
        }
    } else if text_eq(command, "/reasoning") {
        Some(parse_reasoning_control_argument(argument))
    } else if text_eq(command, "/remote") {
        let lower: String = to_lower(argument);
        if bare {
            Some(ConversationControl::ShowRemote)
        } else if text_eq(lower.as_str(), "off") {
            Some(ConversationControl::DisableRemote)
        } else {
            Some(parse_remote_control(argument))
        }
    } else if text_eq(command, "/sandbox") {
        if bare {
            Some(ConversationControl::ShowSandbox)
        } else {
            Some(parse_sandbox_control(argument))
        }
    } else {
        None
    }
}

} // verus!
