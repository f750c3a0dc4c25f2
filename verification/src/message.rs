//! Messages as the channel hands them over and takes them.
use crate::text::opt_text;
use vstd::prelude::*;

verus! {

/// A message that came in over the channel.
#[derive(Debug)]
pub struct ChannelMessage {
    pub id: String,
    pub reply_target: String,
    pub sender: String,
    pub content: String,
    pub channel: String,
    pub timestamp: u64,
    pub thread_ts: Option<String>,
}

/// A message to be sent over the channel.
#[derive(Debug)]
pub struct SendMessage {
    pub recipient: String,
    pub content: String,
}

/// The mathematical value of a `ChannelMessage`.
pub struct Message {
    pub id: Seq<char>,
    pub reply_target: Seq<char>,
    pub sender: Seq<char>,
    pub content: Seq<char>,
    pub channel: Seq<char>,
    pub timestamp: u64,
    pub thread_ts: Option<Seq<char>>,
}

impl View for ChannelMessage {
    type V = Message;

    open spec fn view(&self) -> Message {
        Message {
            id: self.id@,
            reply_target: self.reply_target@,
            sender: self.sender@,
            content: self.content@,
            channel: self.channel@,
            timestamp: self.timestamp,
            thread_ts: opt_text(self.thread_ts),
        }
    }
}

/// The mathematical values of `messages`, in order.
pub open spec fn messages_of(messages: Seq<ChannelMessage>) -> Seq<Message> {
    messages.map_values(|m: ChannelMessage| m@)
}

} // verus!
