//! Data of the earlier protocol version.

use vstd::prelude::*;

verus! {

/// A meta event.
#[derive(Debug, Clone, PartialEq)]
pub enum MetaEvent {
    HeartBeatEvent { interval: u32, sub_type: String, status: Status },
    LifecycleEvent { sub_type: String, status: Status },
}

/// A message event.
#[derive(Debug, Clone, PartialEq)]
pub enum MessageEvent {
    PrivateMessage {
        sub_type: V11MsgSubType,
        message_id: i64,
        user_id: i64,
        message: Vec<V11MsgSegment>,
        raw_message: String,
        sender: V11Sender,
        target_id: Option<i64>,
        temp_source: Option<i32>,
        peer_id: i64,
    },
    GroupMessage {
        sub_type: V11MsgSubType,
        message_id: i64,
        user_id: i64,
        message: Vec<V11MsgSegment>,
        raw_message: String,
        sender: V11Sender,
        group_id: Option<i64>,
        target_id: Option<i64>,
        temp_source: Option<i32>,
        peer_id: i64,
    },
}

/// A message segment.
#[derive(Debug, Clone, PartialEq)]
pub enum V11MsgSegment {
    Text { text: String },
    Face { id: String },
    Image { file: String, ty: String, url: String },
    At { qq: String },
    Poke { ty: i32, id: i32, name: Option<String> },
    Reply { id: i32 },
}

/// The sender of a message.
#[derive(Debug, Clone, PartialEq)]
pub struct V11Sender {
    pub user_id: u32,
    pub nickname: String,
}

/// The sub type of a message.
#[derive(Debug, Clone, Copy, PartialEq, Eq)]
pub enum V11MsgSubType {
    Friend,
    Normal,
    Group,
    GroupSelf,
    Notice,
}

/// The type of a message.
#[derive(Debug, Clone, Copy, PartialEq, Eq)]
pub enum V11MsgType {
    Private,
    Group,
}

/// The status of the bot.
#[derive(Debug, Clone, PartialEq)]
pub struct Status {
    pub good: bool,
    pub online: bool,
    pub qq_status: String,
    pub bot_self: BotSelf,
}

/// The identity of the bot.
#[derive(Debug, Clone, PartialEq)]
pub struct BotSelf {
    pub platform: String,
    pub user_id: u32,
}

} // verus!
