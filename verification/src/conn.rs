//! The decisions of a websocket connection of an application: what to do
//! with a frame, and how meta events update the registry of bots.

use vstd::prelude::*;
use crate::bot_map::{BotMap, bot_items};
use crate::structs::Bot;
use crate::util::ContentType;

verus! {

/// The kind of a websocket frame that was read.
#[derive(Debug, Clone, Copy, PartialEq, Eq, Structural)]
pub enum WsFrame {
    Text,
    Binary,
    Ping,
    Pong,
    Close,
}

/// What to do with a frame.
#[derive(Debug, Clone, Copy, PartialEq, Eq, Structural)]
pub enum WsStep {
    /// Decode the payload in this content type.
    Decode(ContentType),
    /// Answer with a pong carrying the same payload.
    ReplyPong,
    /// The connection ends.
    Stop,
    /// Nothing to do.
    Ignore,
}

/// What to do with a frame: text is JSON, binary is MessagePack, a ping
/// is answered, a close ends the connection and a pong is ignored.
pub fn ws_step(frame: WsFrame) -> (r: WsStep)
    ensures
        r == (match frame {
            WsFrame::Text => WsStep::Decode(ContentType::Json),
            WsFrame::Binary => WsStep::Decode(ContentType::MsgPack),
            WsFrame::Ping => WsStep::ReplyPong,
            WsFrame::Pong => WsStep::Ignore,
            WsFrame::Close => WsStep::Stop,
        }),
{
    match frame {
        WsFrame::Text => WsStep::Decode(ContentType::Json),
        WsFrame::Binary => WsStep::Decode(ContentType::MsgPack),
        WsFrame::Ping => WsStep::ReplyPong,
        WsFrame::Pong => WsStep::Ignore,
        WsFrame::Close => WsStep::Stop,
    }
}

/// A meta event of a connection, as far as the registry needs it.
pub enum ConnMeta {
    /// The implementation announced itself.
    Connect { implt: String },
    /// The implementation reported its bots.
    StatusUpdate { bots: Vec<Bot> },
    /// Any other meta event.
    Other,
}

/// The state of one connection: its number in the registry and the name
/// of the implementation, once it has announced itself.
pub struct ConnState {
    pub seq: usize,
    pub implt: Option<String>,
}

impl ConnState {
    /// A connection that has not announced itself.
    pub fn new(seq: usize) -> (r: ConnState)
        ensures
            r.seq == seq,
            r.implt is None,
    {
        ConnState { seq, implt: None }
    }

    /// Takes a meta event into account: an announcement records the
    /// implementation's name; a status update reports the bots to the
    /// registry once the implementation is known, and is ignored before.
    pub fn on_meta<T>(&mut self, map: &mut BotMap<T>, meta: ConnMeta)
        requires
            old(map)@.conns.contains_key(old(self).seq),
        ensures
            final(self).seq == old(self).seq,
            match meta {
                ConnMeta::Connect { implt } => final(self).implt == Some(implt) && final(map)@ == old(map)@,
                ConnMeta::StatusUpdate { bots } => final(self).implt == old(self).implt && match old(self).implt {
                    Some(i) => final(map)@ == old(map)@.after_update(old(self).seq, bot_items(bots@), i@),
                    None => final(map)@ == old(map)@,
                },
                ConnMeta::Other => final(self).implt == old(self).implt && final(map)@ == old(map)@,
            },
    {
        match meta {
            ConnMeta::Connect { implt } => {
                self.implt = Some(implt);
            },
            ConnMeta::StatusUpdate { bots } => {
                match &self.implt {
                    Some(i) => map.connect_update(self.seq, bots, i.as_str()),
                    None => {},
                }
            },
            ConnMeta::Other => {},
        }
    }
}

} // verus!
