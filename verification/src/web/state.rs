//! The sessions of a channel and what is going on in each.

use vstd::prelude::*;
use crate::chat::{ChatMessage, ToolResultItem};
use crate::pair_map::PairMap;
use crate::text::{opt_view, text_eq};
use crate::web::protocol::{
    ChatProvisionalMessage, ChatToolResultState, ChatTurnState, QueuedOutboundMessage,
};

verus! {

/// A session of a conversation.
#[derive(Debug)]
pub struct ForegroundSessionKey {
    pub conversation_id: String,
    pub foreground_session_id: String,
}

impl ForegroundSessionKey {
    pub open spec fn view(self) -> (Seq<char>, Seq<char>) {
        (self.conversation_id@, self.foreground_session_id@)
    }

    pub fn new(conversation_id: &str, foreground_session_id: &str) -> (r: Self)
        ensures
            r@ == (conversation_id@, foreground_session_id@),
    {
        ForegroundSessionKey {
            conversation_id: conversation_id.to_owned(),
            foreground_session_id: foreground_session_id.to_owned(),
        }
    }
}

/// What is going on in a session.
#[derive(Debug)]
pub struct ForegroundLiveState {
    pub current_turn: Option<ChatTurnState>,
    pub provisional_assistant: Option<ChatProvisionalMessage>,
    pub tool_results: Vec<ChatToolResultState>,
    pub queued_outbound: Vec<QueuedOutboundMessage>,
    pub last_committed_message_id: Option<String>,
    pub last_committed_message_index: Option<usize>,
}

/// The sessions of a channel, and the number of the last event that was told of them.
#[derive(Debug)]
pub struct WebChannelMainState {
    pub home_seq: u64,
    pub foreground: PairMap<ForegroundLiveState>,
}

/// The number that follows; the last number stays.
pub open spec fn next_number(n: u64) -> u64 {
    if n == u64::MAX {
        n
    } else {
        (n + 1) as u64
    }
}

impl WebChannelMainState {
    pub open spec fn wf(self) -> bool {
        self.foreground.wf()
    }

    pub fn new() -> (r: Self)
        ensures
            r.wf(),
            r.home_seq == 0,
            r.foreground@ == Map::<(Seq<char>, Seq<char>), ForegroundLiveState>::empty(),
    {
        WebChannelMainState { home_seq: 0, foreground: PairMap::new() }
    }

    pub fn next_home_seq(&mut self) -> (r: u64)
        ensures
            r == next_number(old(self).home_seq),
            *final(self) == (WebChannelMainState { home_seq: r, ..*old(self) }),
    {
        self.home_seq = self.home_seq.saturating_add(1);
        self.home_seq
    }

    pub fn home_seq(&self) -> (r: u64)
        ensures
            r == self.home_seq,
    {
        self.home_seq
    }

    pub fn foreground_state(&self, key: &ForegroundSessionKey) -> (r: Option<&ForegroundLiveState>)
        requires
            self.wf(),
        ensures
            match r {
                Some(s) => self.foreground@.contains_key(key@) && *s == self.foreground@[key@],
                None => !self.foreground@.contains_key(key@),
            },
    {
        self.foreground.get(key.conversation_id.as_str(), key.foreground_session_id.as_str())
    }

    /// The state of a session, to be changed. A session that was not known starts with
    /// nothing going on.
    pub fn foreground_state_mut(&mut self, key: ForegroundSessionKey) -> (r:
        &mut ForegroundLiveState)
        requires
            old(self).wf(),
        ensures
            old(self).foreground@.contains_key(key@) ==> *r == old(self).foreground@[key@],
            !old(self).foreground@.contains_key(key@) ==> r.is_empty(),
            final(self).wf(),
            final(self).home_seq == old(self).home_seq,
            final(self).foreground@ == old(self).foreground@.insert(key@, *final(r)),
    {
        self.foreground.slot(
            key.conversation_id.as_str(),
            key.foreground_session_id.as_str(),
            ForegroundLiveState::new(),
        )
    }

    pub fn remove_foreground_state(&mut self, key: &ForegroundSessionKey)
        requires
            old(self).wf(),
        ensures
            final(self).wf(),
            final(self).home_seq == old(self).home_seq,
            final(self).foreground@ == old(self).foreground@.remove(key@),
    {
        self.foreground.remove(key.conversation_id.as_str(), key.foreground_session_id.as_str());
    }
}

/// Whether a message with an id waits.
pub open spec fn is_queued(queued: Seq<QueuedOutboundMessage>, id: Seq<char>) -> bool {
    exists|i: int| 0 <= i < queued.len() && (#[trigger] queued[i]).client_message_id@ == id
}

/// The index of the first result of a call; the length when there is none.
pub open spec fn result_index(results: Seq<ChatToolResultState>, id: Seq<char>, i: int) -> int
    decreases results.len() - i,
{
    if i < 0 || i >= results.len() {
        results.len() as int
    } else if results[i].tool_result.tool_call_id@ == id {
        i
    } else {
        result_index(results, id, i + 1)
    }
}

impl ForegroundLiveState {
    /// Nothing is going on and nothing was committed.
    pub open spec fn is_empty(self) -> bool {
        self.current_turn is None && self.provisional_assistant is None && self.tool_results@.len()
            == 0 && self.queued_outbound@.len() == 0 && self.last_committed_message_id is None
            && self.last_committed_message_index is None
    }

    pub fn new() -> (r: Self)
        ensures
            r.is_empty(),
    {
        ForegroundLiveState {
            current_turn: None,
            provisional_assistant: None,
            tool_results: Vec::new(),
            queued_outbound: Vec::new(),
            last_committed_message_id: None,
            last_committed_message_index: None,
        }
    }

    /// Notes a message that waits, unless it waits already.
    pub fn queue_outbound(&mut self, message: QueuedOutboundMessage)
        ensures
            *final(self) == (ForegroundLiveState {
                queued_outbound: final(self).queued_outbound,
                ..*old(self)
            }),
            final(self).queued_outbound@ == if is_queued(
                old(self).queued_outbound@,
                message.client_message_id@,
            ) {
                old(self).queued_outbound@
            } else {
                old(self).queued_outbound@.push(message)
            },
    {
        let mut i: usize = 0;
        while i < self.queued_outbound.len()
            invariant
                *self == *old(self),
                i <= self.queued_outbound@.len(),
                forall|j: int|
                    0 <= j < i ==> (#[trigger] self.queued_outbound@[j]).client_message_id@
                        != message.client_message_id@,
            decreases self.queued_outbound@.len() - i,
        {
            if text_eq(
                self.queued_outbound[i].client_message_id.as_str(),
                message.client_message_id.as_str(),
            ) {
                return;
            }
            i += 1;
        }
        self.queued_outbound.push(message);
    }

    pub fn set_turn(&mut self, turn_id: &str, message_id: Option<String>)
        ensures
            final(self).current_turn matches Some(t) && t.turn_id@ == turn_id@ && t.message_id
                == message_id,
            *final(self) == (ForegroundLiveState {
                current_turn: final(self).current_turn,
                ..*old(self)
            }),
    {
        self.current_turn = Some(ChatTurnState { turn_id: turn_id.to_owned(), message_id });
    }

    /// Sets the message that is being written.
    pub fn append_provisional_assistant(
        &mut self,
        turn_id: &str,
        message_id: &str,
        message: ChatMessage,
    )
        ensures
            final(self).provisional_assistant matches Some(p) && p.turn_id@ == turn_id@
                && p.message_id@ == message_id@ && p.message == message,
            *final(self) == (ForegroundLiveState {
                provisional_assistant: final(self).provisional_assistant,
                ..*old(self)
            }),
    {
        self.provisional_assistant = Some(
            ChatProvisionalMessage {
                turn_id: turn_id.to_owned(),
                message_id: message_id.to_owned(),
                message,
            },
        );
    }

    /// Forgets the message that is being written, where no other one is named.
    pub fn clear_provisional_assistant(&mut self, message_id: Option<&str>)
        ensures
            *final(self) == (if message_id matches Some(id) && old(
                self,
            ).provisional_assistant matches Some(p) && p.message_id@ != id@ {
                *old(self)
            } else {
                ForegroundLiveState { provisional_assistant: None, ..*old(self) }
            }),
    {
        let other: bool = match (message_id, &self.provisional_assistant) {
            (Some(id), Some(p)) => !text_eq(p.message_id.as_str(), id),
            _ => false,
        };
        if !other {
            self.provisional_assistant = None;
        }
    }

    /// Notes the result of a tool. It takes the place of an earlier result of the same
    /// call, which stays committed if it was.
    pub fn push_tool_result(&mut self, turn_id: &str, tool_result: ToolResultItem, committed: bool)
        ensures
            *final(self) == (ForegroundLiveState {
                tool_results: final(self).tool_results,
                ..*old(self)
            }),
            ({
                let results = old(self).tool_results@;
                let now = final(self).tool_results@;
                let i = result_index(results, tool_result.tool_call_id@, 0);
                &&& 0 <= i < now.len()
                &&& now[i].turn_id@ == turn_id@
                &&& now[i].tool_result == tool_result
                &&& now[i].committed == (committed || (i < results.len() && results[i].committed))
                &&& if i < results.len() {
                    now == results.update(i, now[i])
                } else {
                    now == results.push(now[i])
                }
            }),
    {
        let mut i: usize = 0;
        while i < self.tool_results.len() && !text_eq(
            self.tool_results[i].tool_result.tool_call_id.as_str(),
            tool_result.tool_call_id.as_str(),
        )
            invariant
                *self == *old(self),
                i <= self.tool_results@.len(),
                result_index(self.tool_results@, tool_result.tool_call_id@, 0) == result_index(
                    self.tool_results@,
                    tool_result.tool_call_id@,
                    i as int,
                ),
            decreases self.tool_results@.len() - i,
        {
            i += 1;
        }
        if i < self.tool_results.len() {
            let before: bool = self.tool_results[i].committed;
            self.tool_results.set(
                i,
                ChatToolResultState {
                    turn_id: turn_id.to_owned(),
                    tool_result,
                    committed: before || committed,
                },
            );
        } else {
            self.tool_results.push(
                ChatToolResultState { turn_id: turn_id.to_owned(), tool_result, committed },
            );
        }
    }

    /// Notes a message that was added to the log.
    pub fn commit_message(&mut self, message: &ChatMessage, index: usize)
        ensures
            opt_view(final(self).last_committed_message_id) == if message.message_id@.len() == 0 {
                opt_view(old(self).last_committed_message_id)
            } else {
                Some(message.message_id@)
            },
            final(self).provisional_assistant == (if old(
                self,
            ).provisional_assistant matches Some(p) && p.message_id@ == message.message_id@ {
                None
            } else {
                old(self).provisional_assistant
            }),
            *final(self) == (ForegroundLiveState {
                last_committed_message_id: final(self).last_committed_message_id,
                last_committed_message_index: Some(index),
                provisional_assistant: final(self).provisional_assistant,
                ..*old(self)
            }),
    {
        if !message.message_id.as_str().is_empty() {
            self.last_committed_message_id = Some(message.message_id.clone());
        }
        self.last_committed_message_index = Some(index);
        let own: bool = match &self.provisional_assistant {
            Some(p) => text_eq(p.message_id.as_str(), message.message_id.as_str()),
            None => false,
        };
        if own {
            self.provisional_assistant = None;
        }
    }
}

} // verus!
