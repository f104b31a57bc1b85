//! The chats that the application shows: a projection of the events that
//! the engine reported and of what the user sent.

use vstd::prelude::*;
use crate::bridge::BridgeCommand;
use crate::bytes::{copy_bytes, copy_range, same_bytes};

verus! {

/// One line of a chat.
pub struct Message {
    pub sender: Vec<u8>,
    pub text: Vec<u8>,
}

/// A line as mathematical values.
pub ghost struct MessageView {
    pub sender: Seq<u8>,
    pub text: Seq<u8>,
}

impl View for Message {
    type V = MessageView;

    open spec fn view(&self) -> MessageView {
        MessageView { sender: self.sender@, text: self.text@ }
    }
}

/// The lines exchanged with one peer.
pub struct Chat {
    pub chat_name: Vec<u8>,
    pub chat_peer_id: Vec<u8>,
    pub messages: Vec<Message>,
}

/// A chat as mathematical values.
pub ghost struct ChatView {
    pub chat_name: Seq<u8>,
    pub chat_peer_id: Seq<u8>,
    pub messages: Seq<MessageView>,
}

impl View for Chat {
    type V = ChatView;

    open spec fn view(&self) -> ChatView {
        ChatView {
            chat_name: self.chat_name@,
            chat_peer_id: self.chat_peer_id@,
            messages: Seq::new(self.messages@.len(), |i: int| self.messages@[i]@),
        }
    }
}

/// The name that a chat gets when it is opened: `new`.
pub open spec fn spec_default_name() -> Seq<u8> {
    seq![110u8, 101u8, 119u8]
}

/// The sender shown for the user's own lines: `me`.
pub open spec fn spec_own_sender() -> Seq<u8> {
    seq![109u8, 101u8]
}

/// A chat that was opened for `peer` and holds no line yet.
pub open spec fn spec_opened(peer: Seq<u8>) -> ChatView {
    ChatView { chat_name: spec_default_name(), chat_peer_id: peer, messages: Seq::empty() }
}

/// Where the last part of `text` starts: behind its last `/`, or at 0 where
/// it has none.
pub open spec fn spec_tail_start(text: Seq<u8>) -> int
    decreases text.len(),
{
    if text.len() == 0 {
        0
    } else if text.last() == 47u8 {
        text.len() as int
    } else {
        spec_tail_start(text.drop_last())
    }
}

/// The last part of `text`: what follows its last `/`, or all of it where
/// it has none.
pub open spec fn spec_last_part(text: Seq<u8>) -> Seq<u8> {
    text.subrange(spec_tail_start(text), text.len() as int)
}

/// The last part of `text`: what follows its last `/`.
pub fn last_part(text: &Vec<u8>) -> (r: Vec<u8>)
    ensures
        r@ == spec_last_part(text@),
{
    let mut i: usize = text.len();
    assert(text@.take(i as int) =~= text@);
    while i > 0 && text[i - 1] != 47u8
        invariant
            0 <= i <= text@.len(),
            spec_tail_start(text@) == spec_tail_start(text@.take(i as int)),
        decreases i,
    {
        assert(text@.take(i as int).drop_last() =~= text@.take(i - 1));
        i -= 1;
    }
    proof {
        if i > 0 {
            assert(text@.take(i as int).last() == 47u8);
        }
    }
    copy_range(text, i, text.len())
}

/// The chats, in the order in which they were opened, and the one that is
/// shown.
pub struct ChatBook {
    pub chats: Vec<Chat>,
    pub chat_index: usize,
}

impl View for ChatBook {
    type V = Seq<ChatView>;

    open spec fn view(&self) -> Seq<ChatView> {
        Seq::new(self.chats@.len(), |i: int| self.chats@[i]@)
    }
}

/// `chat` with one more line at its end.
pub open spec fn spec_with_line(chat: ChatView, sender: Seq<u8>, text: Seq<u8>) -> ChatView {
    ChatView { messages: chat.messages.push(MessageView { sender, text }), ..chat }
}

impl ChatBook {
    /// No chats.
    pub fn new() -> (b: ChatBook)
        ensures
            b@.len() == 0,
            b.chat_index == 0,
    {
        ChatBook { chats: Vec::new(), chat_index: 0 }
    }

    /// The place of the first chat with the peer `peer`, or the number of
    /// chats where there is none.
    pub fn position(&self, peer: &Vec<u8>) -> (at: usize)
        ensures
            at <= self@.len(),
            forall|j: int| 0 <= j < at ==> self@[j].chat_peer_id != peer@,
            at < self@.len() ==> self@[at as int].chat_peer_id == peer@,
    {
        let mut i: usize = 0;
        while i < self.chats.len()
            invariant
                0 <= i <= self.chats@.len(),
                forall|j: int| 0 <= j < i ==> self@[j].chat_peer_id != peer@,
            decreases self.chats@.len() - i,
        {
            if same_bytes(&self.chats[i].chat_peer_id, peer) {
                assert(self@[i as int].chat_peer_id == peer@);
                return i;
            }
            i += 1;
        }
        i
    }

    /// Puts one more line at the end of the chat at place `at`.
    fn add_line(&mut self, at: usize, sender: Vec<u8>, text: Vec<u8>)
        requires
            at < old(self)@.len(),
        ensures
            final(self).chat_index == old(self).chat_index,
            final(self)@ == old(self)@.update(
                at as int,
                spec_with_line(old(self)@[at as int], sender@, text@),
            ),
    {
        let mut chat = self.chats.remove(at);
        let ghost before = chat@;
        assert(before == old(self)@[at as int]);
        chat.messages.push(Message { sender, text });
        assert(chat@.messages =~= before.messages.push(MessageView { sender: sender@, text: text@ }));
        self.chats.insert(at, chat);
        assert(self@ =~= old(self)@.update(
            at as int,
            spec_with_line(old(self)@[at as int], sender@, text@),
        ));
    }

    /// Opens a chat with the peer `peer` behind the others.
    fn open(&mut self, peer: Vec<u8>)
        ensures
            final(self).chat_index == old(self).chat_index,
            final(self)@ == old(self)@.push(spec_opened(peer@)),
    {
        let mut name: Vec<u8> = Vec::new();
        name.push(110u8);
        name.push(101u8);
        name.push(119u8);
        assert(name@ =~= spec_default_name());
        let chat = Chat { chat_name: name, chat_peer_id: peer, messages: Vec::new() };
        assert(chat@.messages =~= Seq::<MessageView>::empty());
        self.chats.push(chat);
        assert(self@ =~= old(self)@.push(spec_opened(peer@)));
    }

    /// Files a message that arrived from `peer`: it goes to the end of the
    /// first chat with that peer, or of a chat that is opened for it behind
    /// the others. The place of that chat is handed back.
    pub fn record_received(&mut self, peer: Vec<u8>, text: Vec<u8>) -> (at: usize)
        ensures
            final(self).chat_index == old(self).chat_index,
            at <= old(self)@.len(),
            forall|j: int| 0 <= j < at ==> old(self)@[j].chat_peer_id != peer@,
            at < old(self)@.len() ==> old(self)@[at as int].chat_peer_id == peer@ && final(self)@
                == old(self)@.update(
                at as int,
                spec_with_line(old(self)@[at as int], peer@, text@),
            ),
            at == old(self)@.len() ==> final(self)@ == old(self)@.push(
                spec_with_line(spec_opened(peer@), peer@, text@),
            ),
    {
        let at = self.position(&peer);
        if at == self.chats.len() {
            self.open(copy_bytes(&peer));
        }
        self.add_line(at, peer, text);
        proof {
            if at == old(self)@.len() {
                assert(self@ =~= old(self)@.push(
                    spec_with_line(spec_opened(peer@), peer@, text@),
                ));
            }
        }
        at
    }

    /// Opens a chat for the peer whose address the user typed: the peer is
    /// named by the last part of the address.
    pub fn add_peer_chat(&mut self, address: &Vec<u8>)
        ensures
            final(self).chat_index == old(self).chat_index,
            final(self)@ == old(self)@.push(spec_opened(spec_last_part(address@))),
    {
        self.open(last_part(address));
    }

    /// Shows the chat at place `at`, if there is one.
    pub fn select(&mut self, at: usize)
        ensures
            final(self)@ == old(self)@,
            final(self).chat_index == if at < old(self)@.len() {
                at
            } else {
                old(self).chat_index
            },
    {
        if at < self.chats.len() {
            self.chat_index = at;
        }
    }

    /// Files a line that the user sends in the chat that is shown, and gives
    /// the command that publishes it on the chat's name. Without a chat to
    /// show there is nothing to do.
    pub fn record_sent(&mut self, text: Vec<u8>) -> (r: Option<BridgeCommand>)
        ensures
            final(self).chat_index == old(self).chat_index,
            old(self).chat_index >= old(self)@.len() ==> r.is_none() && final(self)@ == old(self)@,
            old(self).chat_index < old(self)@.len() ==> final(self)@ == old(self)@.update(
                old(self).chat_index as int,
                spec_with_line(old(self)@[old(self).chat_index as int], spec_own_sender(), text@),
            ) && match r {
                Some(BridgeCommand::Send { topic, payload }) => topic@ == old(self)@[old(self).chat_index as int].chat_name && payload@ == text@,
                _ => false,
            },
    {
        let at = self.chat_index;
        if at >= self.chats.len() {
            return None;
        }
        let topic = copy_bytes(&self.chats[at].chat_name);
        let payload = copy_bytes(&text);
        let mut me: Vec<u8> = Vec::new();
        me.push(109u8);
        me.push(101u8);
        assert(me@ =~= spec_own_sender());
        self.add_line(at, me, text);
        Some(BridgeCommand::Send { topic, payload })
    }
}

} // verus!
