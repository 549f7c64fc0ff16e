//! The implementation side's answers to action requests read off HTTP or
//! a websocket, once their bodies have been decoded: the handler is called
//! once with a decoded action, and its response goes back with the
//! request's echo tag in the request's encoding.

use vstd::prelude::*;
use crate::echo::{Echo, EchoS};
use crate::error::{error_text, WalleError, WalleResult};
use crate::resp::{error_message, Resp};
use crate::resp_error::{action_decode_error, bad_handler};
use crate::text::starts_with;
use crate::util::ContentType;
use crate::value::ValueView;

verus! {

/// `r` is the failed response to a request whose body could not be
/// decoded, with the decoder's message `msg`: bad segment data (10006)
/// for a missing field, an unsupported action (10002) otherwise.
pub open spec fn decode_error_of(msg: Seq<char>, r: Resp) -> bool {
    &&& r.status@ == "failed"@
    &&& r.data@ == ValueView::Null
    &&& if starts_with(msg, "missing field"@) {
        r.retcode == 10006 && r.message@ == error_message("无效的消息段参数"@, msg)
    } else {
        r.retcode == 10002 && r.message@ == error_message("不支持的动作"@, msg)
    }
}

/// `r` is the failed response to an action whose handler failed with `e`:
/// a handler error (20001) that shows `e`.
pub open spec fn handler_error_of(e: WalleError, r: Resp) -> bool {
    &&& r.status@ == "failed"@
    &&& r.data@ == ValueView::Null
    &&& r.retcode == 20001
    &&& r.message@ == error_message("动作处理器实现错误"@, error_text(e))
}

fn decode_error_resp(msg: &str) -> (r: Resp)
    ensures
        decode_error_of(msg@, r),
{
    Resp::from_error(action_decode_error(msg))
}

fn handler_error_resp(e: &WalleError) -> (r: Resp)
    ensures
        handler_error_of(*e, r),
{
    let text = e.describe();
    Resp::from_error(bad_handler(text.as_str()))
}

/// Where an HTTP action request stands.
pub enum HttpExchange {
    /// The body, in this content type, is being decoded.
    AwaitBody(ContentType),
    /// The handler works on the action; its answer carries `echo`.
    Calling { content_type: ContentType, echo: EchoS },
    /// The request has been answered.
    Done,
}

/// What an HTTP action request learns.
pub enum HttpInput<A, R> {
    /// The body decoded as a tagged action, or failed with a message.
    Decoded(Result<Echo<A>, String>),
    /// The handler answered.
    Handled(WalleResult<R>),
}

/// What to do next for an HTTP action request.
pub enum HttpOutput<A, R> {
    /// Call the action handler with this action.
    Call(A),
    /// Answer with this tagged response, in this content type.
    Tagged(Echo<R>, ContentType),
    /// Answer with this response, without a tag, in this content type.
    Plain(Resp, ContentType),
    /// Nothing.
    Nothing,
}

/// One step of answering an HTTP action request.  A decoded action goes
/// to the handler, and only from there; the handler's response is the
/// answer, with the request's tag, in the request's content type; a
/// failed handler is answered with a handler error, and a body that does
/// not decode with a decode error, both untagged.  An input that does
/// not fit the state changes nothing.
pub fn http_step<A, R>(state: HttpExchange, input: HttpInput<A, R>) -> (r: (HttpExchange, HttpOutput<A, R>))
    ensures
        match (state, input) {
            (HttpExchange::AwaitBody(ct), HttpInput::Decoded(Ok(e))) =>
                r.0 == HttpExchange::Calling { content_type: ct, echo: EchoS(e.echo) }
                && r.1 == HttpOutput::<A, R>::Call(e.inner),
            (HttpExchange::AwaitBody(ct), HttpInput::Decoded(Err(msg))) =>
                r.0 is Done && (r.1 matches HttpOutput::Plain(resp, c) && c == ct && decode_error_of(msg@, resp)),
            (HttpExchange::Calling { content_type: ct, echo }, HttpInput::Handled(Ok(x))) =>
                r.0 is Done && r.1 == HttpOutput::<A, R>::Tagged(Echo { inner: x, echo: echo.0 }, ct),
            (HttpExchange::Calling { content_type: ct, echo }, HttpInput::Handled(Err(e))) =>
                r.0 is Done && (r.1 matches HttpOutput::Plain(resp, c) && c == ct && handler_error_of(e, resp)),
            (s, _) => r.0 == s && r.1 is Nothing,
        },
{
    match (state, input) {
        (HttpExchange::AwaitBody(ct), HttpInput::Decoded(Ok(e))) => {
            let (a, echo) = e.unpack();
            (HttpExchange::Calling { content_type: ct, echo }, HttpOutput::Call(a))
        },
        (HttpExchange::AwaitBody(ct), HttpInput::Decoded(Err(msg))) => {
            (HttpExchange::Done, HttpOutput::Plain(decode_error_resp(msg.as_str()), ct))
        },
        (HttpExchange::Calling { content_type: ct, echo }, HttpInput::Handled(Ok(x))) => {
            (HttpExchange::Done, HttpOutput::Tagged(echo.pack(x), ct))
        },
        (HttpExchange::Calling { content_type: ct, echo }, HttpInput::Handled(Err(e))) => {
            (HttpExchange::Done, HttpOutput::Plain(handler_error_resp(&e), ct))
        },
        (s, _) => (s, HttpOutput::Nothing),
    }
}

/// Where an action read off a websocket stands.
pub enum WsExchange {
    /// The frame, in this content type, is being decoded.
    AwaitFrame(ContentType),
    /// The handler works on the action; its answer goes out in this
    /// content type and carries `echo`.
    Calling { content_type: ContentType, echo: EchoS },
    /// Nothing more is owed.
    Done,
}

/// What an action read off a websocket learns.
pub enum WsInput<A, R> {
    /// The frame decoded as a tagged action.
    Decoded(Echo<A>),
    /// The frame did not decode as an action, with the decoder's message;
    /// the tag it carries, where it holds a map with one.
    Undecodable { message: String, echo: Option<EchoS> },
    /// The handler answered.
    Handled(WalleResult<R>),
}

/// What to do next for an action read off a websocket.
pub enum WsOutput<A, R> {
    /// Call the action handler with this action.
    Call(A),
    /// Send this tagged response on the channel of this content type.
    Reply(Echo<R>, ContentType),
    /// Send this tagged error at once, in this content type.
    ErrorReply(Echo<Resp>, ContentType),
    /// Nothing.
    Nothing,
}

/// One step of answering an action read off a websocket.  A decoded
/// action goes to the handler, and only from there; the handler's response
/// goes out with the action's tag on the channel of the frame's encoding,
/// and a failed handler sends nothing.  A frame that is not an action but
/// carries a tag is answered at once with a decode error under that tag,
/// in the same encoding; one without a tag gets nothing.  An input that
/// does not fit the state changes nothing.
pub fn ws_action_step<A, R>(state: WsExchange, input: WsInput<A, R>) -> (r: (WsExchange, WsOutput<A, R>))
    ensures
        match (state, input) {
            (WsExchange::AwaitFrame(ct), WsInput::Decoded(e)) =>
                r.0 == WsExchange::Calling { content_type: ct, echo: EchoS(e.echo) }
                && r.1 == WsOutput::<A, R>::Call(e.inner),
            (WsExchange::AwaitFrame(ct), WsInput::Undecodable { message, echo: Some(tag) }) =>
                r.0 is Done && (r.1 matches WsOutput::ErrorReply(reply, c) && c == ct
                    && reply.echo == tag.0 && decode_error_of(message@, reply.inner)),
            (WsExchange::AwaitFrame(_), WsInput::Undecodable { echo: None, .. }) =>
                r.0 is Done && r.1 is Nothing,
            (WsExchange::Calling { content_type: ct, echo }, WsInput::Handled(Ok(x))) =>
                r.0 is Done && r.1 == WsOutput::<A, R>::Reply(Echo { inner: x, echo: echo.0 }, ct),
            (WsExchange::Calling { .. }, WsInput::Handled(Err(_))) =>
                r.0 is Done && r.1 is Nothing,
            (s, _) => r.0 == s && r.1 is Nothing,
        },
{
    match (state, input) {
        (WsExchange::AwaitFrame(ct), WsInput::Decoded(e)) => {
            let (a, echo) = e.unpack();
            (WsExchange::Calling { content_type: ct, echo }, WsOutput::Call(a))
        },
        (WsExchange::AwaitFrame(ct), WsInput::Undecodable { message, echo: Some(tag) }) => {
            let resp = decode_error_resp(message.as_str());
            (WsExchange::Done, WsOutput::ErrorReply(tag.pack(resp), ct))
        },
        (WsExchange::AwaitFrame(_), WsInput::Undecodable { echo: None, .. }) => {
            (WsExchange::Done, WsOutput::Nothing)
        },
        (WsExchange::Calling { content_type: ct, echo }, WsInput::Handled(Ok(x))) => {
            (WsExchange::Done, WsOutput::Reply(echo.pack(x), ct))
        },
        (WsExchange::Calling { .. }, WsInput::Handled(Err(_))) => {
            (WsExchange::Done, WsOutput::Nothing)
        },
        (s, _) => (s, WsOutput::Nothing),
    }
}

} // verus!
