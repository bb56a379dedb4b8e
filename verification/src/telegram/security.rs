//! Who may use a channel: administrators, and chats that they approve or reject.

use vstd::prelude::*;
use crate::number::{signed_decimal, signed_text};
use crate::text::{
    cat2, cat3, cat4, cat5, opt_copy, opt_view, strip_prefix, text_eq, trim, trimmed, views,
    without_prefix,
};
use crate::text_map::TextMap;
use crate::words::{join, join_seq};
use super::message::{render_sender, sender_name, TelegramMessage};

verus! {

#[derive(Clone, Copy, Debug, PartialEq, Eq, Structural)]
pub enum AuthorizationState {
    Pending,
    Approved,
    Rejected,
}

pub open spec fn state_name(state: AuthorizationState) -> Seq<char> {
    match state {
        AuthorizationState::Pending => "Pending"@,
        AuthorizationState::Approved => "Approved"@,
        AuthorizationState::Rejected => "Rejected"@,
    }
}

fn state_label(state: AuthorizationState) -> (r: &'static str)
    ensures
        r@ == state_name(state),
{
    match state {
        AuthorizationState::Pending => "Pending",
        AuthorizationState::Approved => "Approved",
        AuthorizationState::Rejected => "Rejected",
    }
}

#[derive(Debug)]
pub struct ChatAuthorization {
    pub state: AuthorizationState,
    pub last_title: Option<String>,
    pub last_user: Option<String>,
}

pub struct ChatView {
    pub state: AuthorizationState,
    pub last_title: Option<Seq<char>>,
    pub last_user: Option<Seq<char>>,
}

impl ChatAuthorization {
    pub open spec fn view(self) -> ChatView {
        ChatView {
            state: self.state,
            last_title: opt_view(self.last_title),
            last_user: opt_view(self.last_user),
        }
    }
}

#[derive(Debug)]
pub struct SecurityState {
    pub admin_user_ids: Vec<i64>,
    pub chats: TextMap<ChatAuthorization>,
}

pub open spec fn chat_views(m: Map<Seq<char>, ChatAuthorization>) -> Map<Seq<char>, ChatView> {
    m.map_values(|c: ChatAuthorization| c@)
}

proof fn lemma_chat_insert(m: Map<Seq<char>, ChatAuthorization>, k: Seq<char>, c: ChatAuthorization)
    ensures
        chat_views(m.insert(k, c)) == chat_views(m).insert(k, c@),
{
    assert(chat_views(m.insert(k, c)) =~= chat_views(m).insert(k, c@));
}

// ---------------------------------------------------------------------------
// Lists of ids
// ---------------------------------------------------------------------------
/// Strictly increasing: in order, and nothing twice.
pub open spec fn increasing(s: Seq<i64>) -> bool {
    forall|i: int, j: int| 0 <= i < j < s.len() ==> s[i] < s[j]
}

/// Adds an id to an increasing list, unless it is there.
fn insert_id(list: &mut Vec<i64>, id: i64)
    requires
        increasing(old(list)@),
    ensures
        increasing(final(list)@),
        final(list)@.to_set() == old(list)@.to_set().insert(id),
{
    let mut i: usize = 0;
    while i < list.len() && list[i] < id
        invariant
            i <= list@.len(),
            list@ == old(list)@,
            increasing(list@),
            forall|j: int| 0 <= j < i ==> list@[j] < id,
        decreases list@.len() - i,
    {
        i += 1;
    }
    let ghost before = list@;
    if i < list.len() && list[i] == id {
        proof {
            assert(before[i as int] == id);
            assert(before.to_set().insert(id) =~= before.to_set());
        }
        return;
    }
    list.insert(i, id);
    proof {
        let now = list@;
        assert forall|a: int, b: int| 0 <= a < b < now.len() implies now[a] < now[b] by {
            let p = if a < i {
                a
            } else {
                a - 1
            };
            let q = if b < i {
                b
            } else {
                b - 1
            };
            if a == i {
                assert(before[i as int] <= before[q]);
            } else if b != i {
                assert(before[p] < before[q]);
            }
        }
        assert forall|x: i64| now.to_set().contains(x) == before.to_set().insert(id).contains(
            x,
        ) by {
            if now.contains(x) {
                let k = choose|k: int| 0 <= k < now.len() && now[k] == x;
                if k < i {
                    assert(before[k] == x);
                } else if k > i {
                    assert(before[k - 1] == x);
                }
            }
            if before.contains(x) {
                let k = choose|k: int| 0 <= k < before.len() && before[k] == x;
                if k < i {
                    assert(now[k] == x);
                } else {
                    assert(now[k + 1] == x);
                }
            }
            if x == id {
                assert(now[i as int] == x);
            }
        }
        assert(now.to_set() =~= before.to_set().insert(id));
    }
}

/// The ids of a list in order, each once.
fn sorted_ids(ids: &Vec<i64>) -> (r: Vec<i64>)
    ensures
        increasing(r@),
        r@.to_set() == ids@.to_set(),
{
    let mut r: Vec<i64> = Vec::new();
    let mut i: usize = 0;
    assert(r@.to_set() =~= ids@.take(0).to_set());
    while i < ids.len()
        invariant
            i <= ids@.len(),
            increasing(r@),
            r@.to_set() == ids@.take(i as int).to_set(),
        decreases ids@.len() - i,
    {
        insert_id(&mut r, ids[i]);
        proof {
            let a = ids@.take(i as int);
            let b = ids@.take(i + 1);
            assert forall|x: i64| b.to_set().contains(x) == a.to_set().insert(
                ids@[i as int],
            ).contains(x) by {
                if b.contains(x) {
                    let k = choose|k: int| 0 <= k < b.len() && b[k] == x;
                    if k < i {
                        assert(a[k] == x);
                    }
                }
                if a.contains(x) {
                    let k = choose|k: int| 0 <= k < a.len() && a[k] == x;
                    assert(b[k] == x);
                }
                if x == ids@[i as int] {
                    assert(b[i as int] == x);
                }
            }
            assert(b.to_set() =~= a.to_set().insert(ids@[i as int]));
        }
        i += 1;
    }
    assert(ids@.take(ids@.len() as int) =~= ids@);
    r
}

fn holds_id(ids: &Vec<i64>, id: i64) -> (b: bool)
    ensures
        b == ids@.contains(id),
{
    let mut i: usize = 0;
    while i < ids.len()
        invariant
            i <= ids@.len(),
            forall|j: int| 0 <= j < i ==> ids@[j] != id,
        decreases ids@.len() - i,
    {
        if ids[i] == id {
            return true;
        }
        i += 1;
    }
    false
}

// ---------------------------------------------------------------------------
// Administrators and chats
// ---------------------------------------------------------------------------
pub open spec fn is_private_with(message: TelegramMessage, user_id: i64) -> bool {
    message.chat.chat_type@ == "private"@ && message.chat.id == user_id
}

pub open spec fn chat_key(message: TelegramMessage) -> Seq<char> {
    signed_decimal(message.chat.id as int)
}

/// The chats after an administrator decided on one of them: its state is the decision,
/// and what was last known of it stays.
pub open spec fn judged(
    chats: Map<Seq<char>, ChatView>,
    id: Seq<char>,
    state: AuthorizationState,
) -> Map<Seq<char>, ChatView> {
    chats.insert(
        id,
        if chats.contains_key(id) {
            ChatView { state, ..chats[id] }
        } else {
            ChatView { state, last_title: None, last_user: None }
        },
    )
}

/// A chat with the title and the sender of the message that came last.
pub open spec fn heard(state: AuthorizationState, message: TelegramMessage) -> ChatView {
    ChatView {
        state,
        last_title: opt_view(message.chat.title),
        last_user: sender_name(message),
    }
}

/// What comes of a message from a chat.
#[derive(Debug)]
pub enum Admission {
    /// The message is handed on.
    Allowed,
    /// The chat is told that it was rejected.
    Rejected { notice: String },
    /// The chat is told to wait, and the administrators are asked.
    Pending { notice: String, request: String },
}

/// What an administrator asks for.
#[derive(Debug)]
pub enum AdminCommand {
    List { report: String },
    Approve { chat_id: String, notice: String, report: String },
    Reject { chat_id: String, notice: String, report: String },
}

pub enum AdminView {
    List,
    Approve { chat_id: Seq<char> },
    Reject { chat_id: Seq<char> },
}

/// What a message of an administrator asks for, if it is a command.
pub open spec fn admin_command(text: Seq<char>) -> Option<AdminView> {
    let c = trimmed(text);
    if c == "/admin_chat_list"@ {
        Some(AdminView::List)
    } else {
        match without_prefix(c, "/admin_chat_approve "@) {
            Some(id) => Some(AdminView::Approve { chat_id: trimmed(id) }),
            None => match without_prefix(c, "/admin_chat_reject "@) {
                Some(id) => Some(AdminView::Reject { chat_id: trimmed(id) }),
                None => None,
            },
        }
    }
}

pub open spec fn or_empty(t: Option<Seq<char>>) -> Seq<char> {
    match t {
        Some(s) => s,
        None => Seq::empty(),
    }
}

pub open spec fn chat_line(id: Seq<char>, c: ChatView) -> Seq<char> {
    "- "@ + id + ": "@ + state_name(c.state) + " "@ + or_empty(c.last_title) + " "@ + or_empty(
        c.last_user,
    )
}

/// The report on the chats of a channel, one line each.
pub open spec fn chat_report(channel_id: Seq<char>, entries: Seq<(String, ChatAuthorization)>) -> Seq<
    char,
> {
    join_seq(
        seq!["channel `"@ + channel_id + "` 当前 chat 审批状态:"@] + entries.map_values(
            |e: (String, ChatAuthorization)| chat_line(e.0@, e.1@),
        ),
        "\n"@,
    )
}

fn text_or_empty(t: &Option<String>) -> (r: String)
    ensures
        r@ == or_empty(opt_view(*t)),
{
    match t {
        Some(s) => s.clone(),
        None => String::new(),
    }
}

/// The notice on a pending chat for the administrators.
pub open spec fn approval_request(message: TelegramMessage, text: Seq<char>) -> Seq<char> {
    "待审批 chat: "@ + chat_key(message) + "\n标题: "@ + or_empty(opt_view(message.chat.title))
        + "\n用户: "@ + or_empty(sender_name(message)) + "\n最近消息: "@ + text
}

impl SecurityState {
    pub open spec fn wf(self) -> bool {
        self.chats.wf()
    }

    pub open spec fn is_admin(self, user_id: i64) -> bool {
        self.admin_user_ids@.contains(user_id)
    }

    pub open spec fn chat(self, key: Seq<char>) -> Option<ChatView> {
        if self.chats@.contains_key(key) {
            Some(chat_views(self.chats@)[key])
        } else {
            None
        }
    }

    pub fn new() -> (r: Self)
        ensures
            r.wf(),
            r.admin_user_ids@.len() == 0,
            r.chats@ == Map::<Seq<char>, ChatAuthorization>::empty(),
    {
        SecurityState { admin_user_ids: Vec::new(), chats: TextMap::new() }
    }

    /// Adds the configured administrators; the list is then in order, without repetition.
    pub fn with_admins(self, configured: &Vec<i64>) -> (r: Self)
        ensures
            r.chats == self.chats,
            increasing(r.admin_user_ids@),
            r.admin_user_ids@.to_set() == self.admin_user_ids@.to_set().union(
                configured@.to_set(),
            ),
    {
        let mut ids: Vec<i64> = sorted_ids(&self.admin_user_ids);
        let ghost own = self.admin_user_ids@.to_set();
        let mut i: usize = 0;
        assert(own.union(configured@.take(0).to_set()) =~= own);
        while i < configured.len()
            invariant
                i <= configured@.len(),
                increasing(ids@),
                ids@.to_set() == own.union(configured@.take(i as int).to_set()),
            decreases configured@.len() - i,
        {
            insert_id(&mut ids, configured[i]);
            proof {
                let a = configured@.take(i as int);
                let b = configured@.take(i + 1);
                let c = configured@[i as int];
                assert forall|x: i64| own.union(a.to_set()).insert(c).contains(x) == own.union(
                    b.to_set(),
                ).contains(x) by {
                    if a.contains(x) {
                        let k = choose|k: int| 0 <= k < a.len() && a[k] == x;
                        assert(b[k] == x);
                    }
                    if b.contains(x) {
                        let k = choose|k: int| 0 <= k < b.len() && b[k] == x;
                        if k < i {
                            assert(a[k] == x);
                        }
                    }
                    if x == c {
                        assert(b[i as int] == x);
                    }
                }
                assert(own.union(a.to_set()).insert(c) =~= own.union(b.to_set()));
            }
            i += 1;
        }
        assert(configured@.take(configured@.len() as int) =~= configured@);
        SecurityState { admin_user_ids: ids, chats: self.chats }
    }

    /// The administrators in order, each once.
    pub fn effective_admin_user_ids(&self) -> (r: Vec<i64>)
        ensures
            increasing(r@),
            r@.to_set() == self.admin_user_ids@.to_set(),
    {
        sorted_ids(&self.admin_user_ids)
    }

    /// Whether a message comes from an administrator in a private chat.
    pub open spec fn from_admin(self, message: TelegramMessage, user_id: i64) -> bool {
        is_private_with(message, user_id) && self.is_admin(user_id)
    }

    pub fn is_admin_private_chat(&self, message: &TelegramMessage, from_user_id: i64) -> (b: bool)
        ensures
            b == self.from_admin(*message, from_user_id),
    {
        text_eq(message.chat.chat_type.as_str(), "private") && message.chat.id == from_user_id
            && holds_id(&self.admin_user_ids, from_user_id)
    }

    /// Whether a message makes its sender the first administrator.
    pub open spec fn bootstraps(self, message: TelegramMessage, user_id: i64) -> bool {
        user_id != 0 && is_private_with(message, user_id) && self.admin_user_ids@.len() == 0
    }

    /// The first user who writes in private becomes the administrator of a channel that
    /// has none, and the chat is approved.
    pub fn bootstrap_first_private_admin_in_memory(
        &mut self,
        message: &TelegramMessage,
        from_user_id: i64,
    ) -> (r: bool)
        requires
            old(self).wf(),
        ensures
            final(self).wf(),
            r == old(self).bootstraps(*message, from_user_id),
            !r ==> *final(self) == *old(self),
            r ==> final(self).admin_user_ids@ == seq![from_user_id] && chat_views(
                final(self).chats@,
            ) == chat_views(old(self).chats@).insert(
                chat_key(*message),
                heard(AuthorizationState::Approved, *message),
            ),
    {
        if from_user_id == 0 || !text_eq(message.chat.chat_type.as_str(), "private")
            || message.chat.id != from_user_id {
            return false;
        }
        if self.admin_user_ids.len() > 0 {
            return false;
        }
        self.admin_user_ids.push(from_user_id);
        assert(self.admin_user_ids@ =~= seq![from_user_id]);
        let key: String = signed_text(message.chat.id);
        let chat = ChatAuthorization {
            state: AuthorizationState::Approved,
            last_title: opt_copy(&message.chat.title),
            last_user: render_sender(message),
        };
        proof {
            lemma_chat_insert(self.chats@, key@, chat);
        }
        self.chats.insert(key.as_str(), chat);
        true
    }

    /// The state of a chat after a message; one that is new is pending.
    pub open spec fn state_of(self, key: Seq<char>) -> AuthorizationState {
        match self.chat(key) {
            Some(c) => c.state,
            None => AuthorizationState::Pending,
        }
    }

    /// Decides on a message, and notes the chat that it came from.
    pub fn authorize_chat(&mut self, message: &TelegramMessage, from_user_id: i64, text: &str) -> (r:
        Admission)
        requires
            old(self).wf(),
        ensures
            final(self).wf(),
            final(self).admin_user_ids == old(self).admin_user_ids,
            if old(self).from_admin(*message, from_user_id) {
                r is Allowed && *final(self) == *old(self)
            } else {
                let state = old(self).state_of(chat_key(*message));
                &&& chat_views(final(self).chats@) == chat_views(old(self).chats@).insert(
                    chat_key(*message),
                    heard(state, *message),
                )
                &&& match r {
                    Admission::Allowed => state == AuthorizationState::Approved,
                    Admission::Rejected { notice } => state == AuthorizationState::Rejected
                        && notice@ == "当前 chat 未获批准，无法使用。"@,
                    Admission::Pending { notice, request } => state == AuthorizationState::Pending
                        && notice@ == "当前 chat 正在等待管理员批准，请联系管理员处理。"@
                        && request@ == approval_request(*message, text@),
                }
            },
    {
        if self.is_admin_private_chat(message, from_user_id) {
            return Admission::Allowed;
        }
        let key: String = signed_text(message.chat.id);
        let state: AuthorizationState = match self.chats.get(key.as_str()) {
            Some(c) => c.state,
            None => AuthorizationState::Pending,
        };
        let chat = ChatAuthorization {
            state,
            last_title: opt_copy(&message.chat.title),
            last_user: render_sender(message),
        };
        proof {
            lemma_chat_insert(self.chats@, key@, chat);
        }
        self.chats.insert(key.as_str(), chat);
        match state {
            AuthorizationState::Approved => Admission::Allowed,
            AuthorizationState::Rejected => Admission::Rejected {
                notice: "当前 chat 未获批准，无法使用。".to_owned(),
            },
            AuthorizationState::Pending => {
                let title: String = text_or_empty(&message.chat.title);
                let user: String = text_or_empty(&render_sender(message));
                let head: String = cat4("待审批 chat: ", key.as_str(), "\n标题: ", title.as_str());
                Admission::Pending {
                    notice: "当前 chat 正在等待管理员批准，请联系管理员处理。".to_owned(),
                    request: cat5(head.as_str(), "\n用户: ", user.as_str(), "\n最近消息: ", text),
                }
            },
        }
    }

    /// Sets the state of a chat; a chat that is new is noted without title and user.
    pub fn update_chat_state(&mut self, chat_id: &str, new_state: AuthorizationState)
        requires
            old(self).wf(),
        ensures
            final(self).wf(),
            final(self).admin_user_ids == old(self).admin_user_ids,
            chat_views(final(self).chats@) == judged(
                chat_views(old(self).chats@),
                chat_id@,
                new_state,
            ),
    {
        let chat: ChatAuthorization = match self.chats.get(chat_id) {
            Some(c) => ChatAuthorization {
                state: new_state,
                last_title: opt_copy(&c.last_title),
                last_user: opt_copy(&c.last_user),
            },
            None => ChatAuthorization { state: new_state, last_title: None, last_user: None },
        };
        proof {
            lemma_chat_insert(self.chats@, chat_id@, chat);
        }
        self.chats.insert(chat_id, chat);
    }

    /// The report on the chats of a channel.
    pub fn chat_list_report(&self, channel_id: &str) -> (r: String)
        ensures
            r@ == chat_report(channel_id@, self.chats.entries@),
    {
        let mut lines: Vec<String> = Vec::new();
        lines.push(cat3("channel `", channel_id, "` 当前 chat 审批状态:"));
        let ghost all = seq!["channel `"@ + channel_id@ + "` 当前 chat 审批状态:"@]
            + self.chats.entries@.map_values(
            |e: (String, ChatAuthorization)| chat_line(e.0@, e.1@),
        );
        let mut i: usize = 0;
        assert(views(lines@) =~= all.take(1));
        while i < self.chats.entries.len()
            invariant
                i <= self.chats.entries@.len(),
                all == seq!["channel `"@ + channel_id@ + "` 当前 chat 审批状态:"@]
                    + self.chats.entries@.map_values(
                    |e: (String, ChatAuthorization)| chat_line(e.0@, e.1@),
                ),
                views(lines@) =~= all.take(i + 1),
            decreases self.chats.entries@.len() - i,
        {
            let id: &str = self.chats.entries[i].0.as_str();
            let chat: &ChatAuthorization = &self.chats.entries[i].1;
            let title: String = text_or_empty(&chat.last_title);
            let user: String = text_or_empty(&chat.last_user);
            let head: String = cat4("- ", id, ": ", state_label(chat.state));
            let line: String = cat5(head.as_str(), " ", title.as_str(), " ", user.as_str());
            let ghost before = lines@;
            lines.push(line);
            assert(views(lines@) =~= views(before).push(line@));
            assert(all[i + 1] == chat_line(id@, chat@));
            i += 1;
        }
        assert(all.take(all.len() as int) =~= all);
        join(lines.as_slice(), "\n")
    }

    /// Carries out what an administrator asks for, and says what is to be sent.
    pub fn handle_admin_command(&mut self, channel_id: &str, text: &str) -> (r: Option<AdminCommand>)
        requires
            old(self).wf(),
        ensures
            final(self).wf(),
            final(self).admin_user_ids == old(self).admin_user_ids,
            match (r, admin_command(text@)) {
                (None, None) => *final(self) == *old(self),
                (Some(AdminCommand::List { report }), Some(AdminView::List)) => *final(self)
                    == *old(self) && report@ == chat_report(channel_id@, old(self).chats.entries@),
                (
                    Some(AdminCommand::Approve { chat_id, notice, report }),
                    Some(AdminView::Approve { chat_id: id }),
                ) => chat_id@ == id && notice@ == "此 chat 已批准，可以开始使用。"@ && report@
                    == "已批准 chat "@ + id && chat_views(final(self).chats@) == judged(
                    chat_views(old(self).chats@),
                    id,
                    AuthorizationState::Approved,
                ),
                (
                    Some(AdminCommand::Reject { chat_id, notice, report }),
                    Some(AdminView::Reject { chat_id: id }),
                ) => chat_id@ == id && notice@ == "此 chat 已被拒绝。"@ && report@
                    == "已拒绝 chat "@ + id && chat_views(final(self).chats@) == judged(
                    chat_views(old(self).chats@),
                    id,
                    AuthorizationState::Rejected,
                ),
                _ => false,
            },
    {
        let command: &str = trim(text);
        if text_eq(command, "/admin_chat_list") {
            return Some(AdminCommand::List { report: self.chat_list_report(channel_id) });
        }
        match strip_prefix(command, "/admin_chat_approve ") {
            Some(id) => {
                let id: &str = trim(id);
                self.update_chat_state(id, AuthorizationState::Approved);
                return Some(
                    AdminCommand::Approve {
                        chat_id: id.to_owned(),
                        notice: "此 chat 已批准，可以开始使用。".to_owned(),
                        report: cat2("已批准 chat ", id),
                    },
                );
            },
            None => {},
        }
        match strip_prefix(command, "/admin_chat_reject ") {
            Some(id) => {
                let id: &str = trim(id);
                self.update_chat_state(id, AuthorizationState::Rejected);
                Some(
                    AdminCommand::Reject {
                        chat_id: id.to_owned(),
                        notice: "此 chat 已被拒绝。".to_owned(),
                        report: cat2("已拒绝 chat ", id),
                    },
                )
            },
            None => None,
        }
    }
}

// ---------------------------------------------------------------------------
// Laws
// ---------------------------------------------------------------------------
/// A channel gets its first administrator only once: where there is one, no message
/// makes another.
pub proof fn administrators_bootstrap_once(
    state: SecurityState,
    admin: i64,
    message: TelegramMessage,
    user_id: i64,
)
    requires
        state.is_admin(admin),
    ensures
        !state.bootstraps(message, user_id),
{
}

/// The user who became the first administrator is one in that chat from then on.
pub proof fn bootstrapped_user_is_admin(
    before: SecurityState,
    after: SecurityState,
    message: TelegramMessage,
    user_id: i64,
)
    requires
        before.bootstraps(message, user_id),
        after.admin_user_ids@ == seq![user_id],
    ensures
        after.from_admin(message, user_id),
{
    assert(after.admin_user_ids@[0] == user_id);
}

/// An increasing list is determined by the ids it holds.
pub proof fn increasing_list_is_unique(a: Seq<i64>, b: Seq<i64>)
    requires
        increasing(a),
        increasing(b),
        a.to_set() == b.to_set(),
    ensures
        a == b,
    decreases a.len(),
{
    if a.len() == 0 {
        if b.len() > 0 {
            assert(b.to_set().contains(b[0]));
            assert(a.to_set().contains(b[0]));
        }
        assert(a =~= b);
    } else {
        assert(a.to_set().contains(a.last()));
        assert(b.to_set().contains(a.last()));
        let k = choose|k: int| 0 <= k < b.len() && b[k] == a.last();
        assert(b.to_set().contains(b.last()));
        assert(a.to_set().contains(b.last()));
        let m = choose|m: int| 0 <= m < a.len() && a[m] == b.last();
        assert(a.last() == b.last()) by {
            if k < b.len() - 1 {
                assert(b[k] < b[b.len() - 1]);
                if m < a.len() - 1 {
                    assert(a[m] < a[a.len() - 1]);
                }
            }
        }
        let p = a.drop_last();
        let q = b.drop_last();
        assert forall|x: i64| p.to_set().contains(x) == q.to_set().contains(x) by {
            if p.contains(x) {
                let i = choose|i: int| 0 <= i < p.len() && p[i] == x;
                assert(a[i] == x);
                assert(a.to_set().contains(x));
                assert(b.to_set().contains(x));
                let j = choose|j: int| 0 <= j < b.len() && b[j] == x;
                assert(a[i] < a[a.len() - 1]);
                assert(j < b.len() - 1);
                assert(q[j] == x);
            }
            if q.contains(x) {
                let i = choose|i: int| 0 <= i < q.len() && q[i] == x;
                assert(b[i] == x);
                assert(b.to_set().contains(x));
                assert(a.to_set().contains(x));
                let j = choose|j: int| 0 <= j < a.len() && a[j] == x;
                assert(b[i] < b[b.len() - 1]);
                assert(j < a.len() - 1);
                assert(p[j] == x);
            }
        }
        assert(p.to_set() =~= q.to_set());
        increasing_list_is_unique(p, q);
        assert(a =~= p.push(a.last()));
        assert(b =~= q.push(b.last()));
    }
}

} // verus!
