//! Messages for the player, and the log that keeps them.

use std::collections::VecDeque;
use vstd::prelude::*;
use vstd::std_specs::cmp::PartialEqSpecImpl;
use vstd::string::*;

verus! {

/// What a message is about.
#[derive(Debug, Clone, Copy, PartialEq, Eq, Structural)]
pub enum MessageKind {
    Info,
    Inventory,
    Debug,
    Skill,
}

/// A line of text for the player.
#[derive(Debug)]
pub struct Message {
    pub kind: MessageKind,
    pub text: String,
    /// Whether the log leaves out a message equal to this one while this one
    /// is the newest.
    pub no_repeat: bool,
}

/// What a [`Message`] says: its fields, with the text as a sequence of
/// characters.
#[verifier::ext_equal]
pub struct MessageView {
    pub kind: MessageKind,
    pub text: Seq<char>,
    pub no_repeat: bool,
}

impl View for Message {
    type V = MessageView;

    open spec fn view(&self) -> MessageView {
        MessageView { kind: self.kind, text: self.text@, no_repeat: self.no_repeat }
    }
}

impl Message {
    /// The message with the given fields.
    pub fn new(kind: MessageKind, text: &str, no_repeat: bool) -> (m: Message)
        ensures
            m@ == (MessageView { kind, text: text@, no_repeat }),
    {
        Message { text: String::from_str(text), kind, no_repeat }
    }

    /// A message that may be repeated, with the given text.
    pub fn from_string(kind: MessageKind, text: String) -> (m: Message)
        ensures
            m@ == (MessageView { kind, text: text@, no_repeat: false }),
    {
        Message { text, kind, no_repeat: false }
    }
}

impl Clone for Message {
    fn clone(&self) -> (m: Message)
        ensures
            m@ == self@,
    {
        Message { kind: self.kind, text: self.text.clone(), no_repeat: self.no_repeat }
    }
}

impl PartialEq for Message {
    fn eq(&self, other: &Message) -> (r: bool) {
        let r = self.kind == other.kind && self.text == other.text && self.no_repeat
            == other.no_repeat;
        proof {
            if r {
                assert(self@ =~= other@);
            }
        }
        r
    }
}

impl Eq for Message {

}

impl PartialEqSpecImpl for Message {
    open spec fn obeys_eq_spec() -> bool {
        true
    }

    open spec fn eq_spec(&self, other: &Message) -> bool {
        self@ == other@
    }
}

/// The most messages that [`MessageQueue::flush`] keeps.
pub const MAX_MESSAGES: usize = 50;

/// The log after `msg` was pushed onto `log`: `msg` comes first, unless the
/// newest message asks not to be repeated and equals `msg`.
pub open spec fn pushed(log: Seq<MessageView>, msg: MessageView) -> Seq<MessageView> {
    if log.len() > 0 && log[0].no_repeat && log[0] == msg {
        log
    } else {
        seq![msg] + log
    }
}

/// The newest [`MAX_MESSAGES`] messages of `log`.
pub open spec fn flushed(log: Seq<MessageView>) -> Seq<MessageView> {
    if log.len() > MAX_MESSAGES {
        log.subrange(0, MAX_MESSAGES as int)
    } else {
        log
    }
}

/// The message log, newest message first.
#[derive(Debug)]
pub struct MessageQueue {
    messages: VecDeque<Message>,
}

impl View for MessageQueue {
    type V = Seq<MessageView>;

    closed spec fn view(&self) -> Seq<MessageView> {
        self.messages@.map_values(|m: Message| m@)
    }
}

impl Default for MessageQueue {
    fn default() -> (q: MessageQueue)
        ensures
            q@ == Seq::<MessageView>::empty(),
    {
        MessageQueue::new()
    }
}

impl MessageQueue {
    /// The empty log.
    pub fn new() -> (q: MessageQueue)
        ensures
            q@ == Seq::<MessageView>::empty(),
    {
        let q = MessageQueue { messages: VecDeque::new() };
        assert(q@ =~= Seq::<MessageView>::empty());
        q
    }

    /// Puts `msg` in front of the log. It is left out if it equals the
    /// newest message and that one asks not to be repeated.
    pub fn push(&mut self, msg: Message)
        ensures
            final(self)@ == pushed(old(self)@, msg@),
    {
        if self.messages.len() > 0 {
            let current = &self.messages[0];
            if current.no_repeat && *current == msg {
                return ;
            }
        }
        self.messages.push_front(msg);
        assert(self@ =~= seq![msg@] + old(self)@);
    }

    /// Drops all but the newest [`MAX_MESSAGES`] messages.
    pub fn flush(&mut self)
        ensures
            final(self)@ == flushed(old(self)@),
    {
        self.messages.truncate(MAX_MESSAGES);
        assert(self@ =~= flushed(old(self)@));
    }

    /// The number of messages in the log.
    pub fn len(&self) -> (n: usize)
        ensures
            n == self@.len(),
    {
        self.messages.len()
    }

    /// The message at position `i`, counted from the newest.
    pub fn get(&self, i: usize) -> (r: Option<&Message>)
        ensures
            match r {
                Some(m) => i < self@.len() && m@ == self@[i as int],
                None => i >= self@.len(),
            },
    {
        if i < self.messages.len() {
            Some(&self.messages[i])
        } else {
            None
        }
    }

    /// All messages, newest first.
    pub fn iter(&self) -> (all: Vec<&Message>)
        ensures
            all@.len() == self@.len(),
            forall|i: int| 0 <= i < all@.len() ==> (#[trigger] all@[i])@ == self@[i],
    {
        let mut all: Vec<&Message> = Vec::new();
        let mut n: usize = 0;
        while n < self.messages.len()
            invariant
                n <= self.messages@.len(),
                all@.len() == n,
                forall|i: int| 0 <= i < n ==> (#[trigger] all@[i])@ == self@[i],
            decreases self.messages@.len() - n,
        {
            all.push(&self.messages[n]);
            n = n + 1;
        }
        all
    }
}

} // verus!
