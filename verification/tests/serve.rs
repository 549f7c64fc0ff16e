use walle_core::echo::{Echo, EchoInner, EchoS};
use walle_core::error::WalleError;
use walle_core::serve::{http_step, ws_action_step, HttpExchange, HttpInput, HttpOutput, WsExchange, WsInput, WsOutput};
use walle_core::util::ContentType;

fn tag(s: &str) -> Option<EchoInner> {
    Some(EchoInner::S(s.to_owned()))
}

#[test]
fn http_action_is_handled_once_and_tagged() {
    let decoded: Result<Echo<u8>, String> = Ok(Echo { inner: 7, echo: tag("e1") });
    let (state, out) = http_step::<u8, u16>(HttpExchange::AwaitBody(ContentType::MsgPack), HttpInput::Decoded(decoded));
    assert!(matches!(out, HttpOutput::Call(7)));
    let (state, out) = http_step::<u8, u16>(state, HttpInput::Handled(Ok(70)));
    match out {
        HttpOutput::Tagged(e, ct) => {
            assert_eq!(e.inner, 70);
            assert_eq!(e.echo, tag("e1"));
            assert_eq!(ct, ContentType::MsgPack);
        },
        _ => panic!("no answer"),
    }
    assert!(matches!(state, HttpExchange::Done));
    let (_, out) = http_step::<u8, u16>(HttpExchange::Done, HttpInput::Handled(Ok(1)));
    assert!(matches!(out, HttpOutput::Nothing));
}

#[test]
fn http_errors_are_answered_untagged() {
    let bad: Result<Echo<u8>, String> = Err("missing field `action`".to_owned());
    let (_, out) = http_step::<u8, u16>(HttpExchange::AwaitBody(ContentType::Json), HttpInput::Decoded(bad));
    match out {
        HttpOutput::Plain(r, ct) => {
            assert_eq!(r.retcode, 10006);
            assert_eq!(ct, ContentType::Json);
        },
        _ => panic!("no answer"),
    }
    let calling = HttpExchange::Calling { content_type: ContentType::Json, echo: EchoS(tag("e")) };
    let (_, out) = http_step::<u8, u16>(calling, HttpInput::Handled(Err(WalleError::BotNotExist)));
    match out {
        HttpOutput::Plain(r, _) => assert_eq!(r.retcode, 20001),
        _ => panic!("no answer"),
    }
}

#[test]
fn ws_actions_reply_on_their_channel() {
    let (state, out) = ws_action_step::<u8, u16>(
        WsExchange::AwaitFrame(ContentType::Json),
        WsInput::Decoded(Echo { inner: 3, echo: tag("w") }),
    );
    assert!(matches!(out, WsOutput::Call(3)));
    let (_, out) = ws_action_step::<u8, u16>(state, WsInput::Handled(Ok(30)));
    match out {
        WsOutput::Reply(e, ct) => {
            assert_eq!(e.inner, 30);
            assert_eq!(e.echo, tag("w"));
            assert_eq!(ct, ContentType::Json);
        },
        _ => panic!("no reply"),
    }
    let (_, out) = ws_action_step::<u8, u16>(
        WsExchange::AwaitFrame(ContentType::MsgPack),
        WsInput::Undecodable { message: "unknown variant".to_owned(), echo: Some(EchoS(tag("x"))) },
    );
    match out {
        WsOutput::ErrorReply(e, ct) => {
            assert_eq!(e.inner.retcode, 10002);
            assert_eq!(e.echo, tag("x"));
            assert_eq!(ct, ContentType::MsgPack);
        },
        _ => panic!("no error reply"),
    }
    let (_, out) = ws_action_step::<u8, u16>(
        WsExchange::AwaitFrame(ContentType::Json),
        WsInput::Undecodable { message: "garbage".to_owned(), echo: None },
    );
    assert!(matches!(out, WsOutput::Nothing));
    let calling = WsExchange::Calling { content_type: ContentType::Json, echo: EchoS(None) };
    let (_, out) = ws_action_step::<u8, u16>(calling, WsInput::Handled(Err(WalleError::BotNotExist)));
    assert!(matches!(out, WsOutput::Nothing));
}
