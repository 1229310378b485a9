//! The chats in which a turn runs, and the messages that wait for it to end.
use vstd::prelude::*;
use dashmap::DashMap;
use crate::bus::InboundMessage;

verus! {

/// What is known of a chat.
#[derive(Debug)]
pub struct ChatEntry {
    /// The turn that runs.
    pub turn: Option<u64>,
    /// The messages that wait, the oldest first.
    pub queue: Vec<InboundMessage>,
}

/// What a map of chats holds: for each chat that is a key, its entry.
pub uninterp spec fn chats_in(m: DashMap<String, ChatEntry>) -> Map<Seq<char>, ChatEntry>;

/// No chats.
pub open spec fn no_chats() -> Map<Seq<char>, ChatEntry> {
    Map::empty()
}

/// `DashMap::new`: a map that holds nothing.
#[verifier::external_body]
fn map_new() -> (r: DashMap<String, ChatEntry>)
    ensures
        chats_in(r) == no_chats(),
{
    DashMap::new()
}

/// `DashMap::insert`: puts the entry under the chat, in place of one that was there.
#[verifier::external_body]
fn map_insert(m: &mut DashMap<String, ChatEntry>, chat_id: String, entry: ChatEntry)
    ensures
        chats_in(*final(m)) == chats_in(*old(m)).insert(chat_id@, entry),
{
    m.insert(chat_id, entry);
}

/// `DashMap::remove`: takes the chat out with its entry, which it gives back.
#[verifier::external_body]
fn map_remove(m: &mut DashMap<String, ChatEntry>, chat_id: &str) -> (r: Option<ChatEntry>)
    ensures
        chats_in(*final(m)) == chats_in(*old(m)).remove(chat_id@),
        r == if chats_in(*old(m)).contains_key(chat_id@) {
            Some(chats_in(*old(m))[chat_id@])
        } else {
            None
        },
{
    m.remove(chat_id).map(|entry| entry.1)
}

/// `DashMap::get`: the entry under the chat, of which the turn is handed out.
#[verifier::external_body]
fn map_get_turn(m: &DashMap<String, ChatEntry>, chat_id: &str) -> (r: Option<Option<u64>>)
    ensures
        r == if chats_in(*m).contains_key(chat_id@) {
            Some(chats_in(*m)[chat_id@].turn)
        } else {
            None
        },
{
    m.get(chat_id).map(|entry| entry.value().turn)
}

/// A chat in the abstract.
#[verifier::ext_equal]
pub struct ChatView {
    pub turn: Option<u64>,
    pub queue: Seq<InboundMessage>,
}

/// A chat in which no turn runs and no message waits.
pub open spec fn idle() -> ChatView {
    ChatView { turn: None, queue: Seq::empty() }
}

/// A chat after a turn has ended: it is free, unless another turn has taken the place of that
/// one, and the message that has waited longest is gone.
pub open spec fn without_turn(chat: ChatView, turn: u64) -> ChatView {
    ChatView {
        turn: if chat.turn == Some(turn) {
            None
        } else {
            chat.turn
        },
        queue: if chat.queue.len() > 0 {
            chat.queue.drop_first()
        } else {
            chat.queue
        },
    }
}

/// The message in a chat that has waited longest.
pub open spec fn next_of(chat: ChatView) -> Option<InboundMessage> {
    if chat.queue.len() > 0 {
        Some(chat.queue[0])
    } else {
        None
    }
}

/// The chats, each in which a turn runs or a message waits.
pub struct ChatTable {
    chats: DashMap<String, ChatEntry>,
}

impl ChatTable {
    /// The chat with the id.
    pub closed spec fn chat(self, chat_id: Seq<char>) -> ChatView {
        if chats_in(self.chats).contains_key(chat_id) {
            let entry = chats_in(self.chats)[chat_id];
            ChatView { turn: entry.turn, queue: entry.queue@ }
        } else {
            idle()
        }
    }

    /// Whether the chat changed to the new state, and no other chat did.
    pub open spec fn changed_to(self, before: ChatTable, chat_id: Seq<char>, now: ChatView) -> bool {
        forall|c: Seq<char>| #[trigger]
            self.chat(c) == if c == chat_id {
                now
            } else {
                before.chat(c)
            }
    }

    /// A table in which every chat is idle.
    pub fn new() -> (r: Self)
        ensures
            forall|c: Seq<char>| #[trigger] r.chat(c) == idle(),
    {
        ChatTable { chats: map_new() }
    }

    /// The turn that runs in the chat.
    pub fn turn_in(&self, chat_id: &str) -> (r: Option<u64>)
        ensures
            r == self.chat(chat_id@).turn,
    {
        match map_get_turn(&self.chats, chat_id) {
            Some(turn) => turn,
            None => None,
        }
    }

    fn take(&mut self, chat_id: &str) -> (r: ChatEntry)
        ensures
            old(self).chat(chat_id@) == (ChatView { turn: r.turn, queue: r.queue@ }),
            final(self).changed_to(*old(self), chat_id@, idle()),
    {
        match map_remove(&mut self.chats, chat_id) {
            Some(entry) => entry,
            None => ChatEntry { turn: None, queue: Vec::new() },
        }
    }

    fn put(&mut self, chat_id: &str, entry: ChatEntry)
        ensures
            final(self).changed_to(
                *old(self),
                chat_id@,
                ChatView { turn: entry.turn, queue: entry.queue@ },
            ),
    {
        map_insert(&mut self.chats, chat_id.to_owned(), entry);
    }

    /// Notes that the turn runs in the chat.
    pub fn start_turn(&mut self, chat_id: &str, turn: u64)
        ensures
            final(self).changed_to(
                *old(self),
                chat_id@,
                ChatView { turn: Some(turn), ..old(self).chat(chat_id@) },
            ),
    {
        let mut entry: ChatEntry = self.take(chat_id);
        entry.turn = Some(turn);
        self.put(chat_id, entry);
    }

    /// Lets the message wait behind all that wait in the chat.
    pub fn enqueue(&mut self, chat_id: &str, inbound: InboundMessage)
        ensures
            final(self).changed_to(
                *old(self),
                chat_id@,
                ChatView {
                    queue: old(self).chat(chat_id@).queue.push(inbound),
                    ..old(self).chat(chat_id@)
                },
            ),
    {
        let mut entry: ChatEntry = self.take(chat_id);
        entry.queue.push(inbound);
        self.put(chat_id, entry);
    }

    /// Notes that the turn has ended: the chat is free, unless another turn has taken its
    /// place. Hands out the message that has waited longest.
    pub fn end_turn(&mut self, chat_id: &str, turn: u64) -> (r: Option<InboundMessage>)
        ensures
            final(self).changed_to(
                *old(self),
                chat_id@,
                without_turn(old(self).chat(chat_id@), turn),
            ),
            r == next_of(old(self).chat(chat_id@)),
    {
        let mut entry: ChatEntry = self.take(chat_id);
        let ghost waiting = entry.queue@;
        if let Some(running) = entry.turn {
            if running == turn {
                entry.turn = None;
            }
        }
        let next: Option<InboundMessage> = if entry.queue.len() > 0 {
            Some(entry.queue.remove(0))
        } else {
            None
        };
        proof {
            if waiting.len() > 0 {
                assert(entry.queue@ =~= waiting.drop_first());
            }
        }
        if entry.turn.is_some() || entry.queue.len() > 0 {
            self.put(chat_id, entry);
        } else {
            assert(entry.queue@ =~= Seq::empty());
        }
        next
    }

    /// Cancels what happens in the chat: the messages that wait are dropped, and the turn
    /// that runs is handed out.
    pub fn cancel(&mut self, chat_id: &str) -> (r: Option<u64>)
        ensures
            r == old(self).chat(chat_id@).turn,
            final(self).changed_to(*old(self), chat_id@, idle()),
    {
        let entry: ChatEntry = self.take(chat_id);
        entry.turn
    }
}

/// The end of a turn hands out the message that has waited longest and keeps the others in their
/// order, so that none is lost and none comes twice. Only the turn that runs can free the chat.
pub proof fn law_waiting_messages_come_in_order(chat: ChatView, turn: u64)
    ensures
        next_of(chat) is None <==> chat.queue.len() == 0,
        next_of(chat) matches Some(m) ==> seq![m] + without_turn(chat, turn).queue == chat.queue,
        chat.queue.len() > 1 ==> next_of(without_turn(chat, turn)) == Some(chat.queue[1]),
        chat.queue.len() <= 1 ==> next_of(without_turn(chat, turn)) is None,
        chat.turn == Some(turn) ==> without_turn(chat, turn).turn is None,
        chat.turn != Some(turn) ==> without_turn(chat, turn).turn == chat.turn,
        idle().turn is None && next_of(idle()) is None,
{
    if chat.queue.len() > 0 {
        assert(seq![chat.queue[0]] + chat.queue.drop_first() =~= chat.queue);
    }
}

/// A message that is put behind the others is the last to be handed out: where it is alone it
/// comes next, and else what comes next is what came next before.
pub proof fn law_late_message_waits(chat: ChatView, late: InboundMessage)
    ensures
        ({
            let after = ChatView { queue: chat.queue.push(late), ..chat };
            &&& next_of(after) == if chat.queue.len() == 0 {
                Some(late)
            } else {
                next_of(chat)
            }
            &&& without_turn(after, 0).queue == if chat.queue.len() == 0 {
                Seq::empty()
            } else {
                without_turn(chat, 0).queue.push(late)
            }
        }),
{
    let after = ChatView { queue: chat.queue.push(late), ..chat };
    if chat.queue.len() == 0 {
        assert(after.queue.drop_first() =~= Seq::empty());
    } else {
        assert(after.queue.drop_first() =~= chat.queue.drop_first().push(late));
    }
}

} // verus!
