use walle_core::bot_map::BotMap;
use walle_core::conn::{ws_step, ConnMeta, ConnState, WsFrame, WsStep};
use walle_core::gate::{bearer, header_auth_token, impl_http_gate, webhook_gate, Gate};
use walle_core::structs::{Bot, Selft};
use walle_core::util::ContentType;

fn reject(status: u16, body: &str) -> Gate {
    Gate::Reject { status, body: body.to_owned() }
}

#[test]
fn impl_http_requests() {
    let json = Some("application/json");
    assert_eq!(impl_http_gate(false, None, None, "/", json, None, None), reject(405, ""));
    assert_eq!(impl_http_gate(true, None, None, "/x", json, None, None), reject(404, ""));
    assert_eq!(impl_http_gate(true, Some("/x"), None, "/x", json, None, None), Gate::Accept(ContentType::Json));
    assert_eq!(impl_http_gate(true, None, None, "", Some("text/plain"), None, None), reject(415, ""));
    assert_eq!(impl_http_gate(true, None, None, "", Some("application/msgpack"), None, None), Gate::Accept(ContentType::MsgPack));
    let t = Some("tok");
    assert_eq!(impl_http_gate(true, None, t, "/", json, Some("Bearer tok"), None), Gate::Accept(ContentType::Json));
    assert_eq!(impl_http_gate(true, None, t, "/", json, Some("Bearer no"), None), reject(403, "Authorization Header is invalid"));
    assert_eq!(impl_http_gate(true, None, t, "/", json, None, Some("access_token=tok")), Gate::Accept(ContentType::Json));
    assert_eq!(impl_http_gate(true, None, t, "/", json, None, Some("access_token=no")), reject(403, "Authorization Query is invalid"));
    assert_eq!(impl_http_gate(true, None, t, "/", json, None, None), reject(403, "Missing Authorization Header"));
}

#[test]
fn webhook_requests() {
    assert_eq!(webhook_gate(None, None, "/", None), None);
    assert_eq!(webhook_gate(None, None, "/a", None), Some((404, "Not Found".to_owned())));
    assert_eq!(webhook_gate(None, Some("t"), "/", None), Some((403, "Missing Authorization Header".to_owned())));
    assert_eq!(webhook_gate(None, Some("t"), "/", Some("Bearer x")), Some((403, "Authorization Header is invalid".to_owned())));
    assert_eq!(webhook_gate(None, Some("t"), "/", Some("Bearer t")), None);
    assert_eq!(bearer("abc"), "Bearer abc");
    assert_eq!(header_auth_token(None), None);
}

#[test]
fn websocket_frames() {
    assert_eq!(ws_step(WsFrame::Text), WsStep::Decode(ContentType::Json));
    assert_eq!(ws_step(WsFrame::Binary), WsStep::Decode(ContentType::MsgPack));
    assert_eq!(ws_step(WsFrame::Ping), WsStep::ReplyPong);
    assert_eq!(ws_step(WsFrame::Pong), WsStep::Ignore);
    assert_eq!(ws_step(WsFrame::Close), WsStep::Stop);
}

#[test]
fn meta_events_update_the_registry_once_announced() {
    let mut map: BotMap<u8> = BotMap::new();
    let seq = map.new_connect(1);
    let mut state = ConnState::new(seq);
    let bot = Selft { platform: "p".to_owned(), user_id: "u".to_owned() };
    state.on_meta(&mut map, ConnMeta::StatusUpdate { bots: vec![Bot { selft: bot.clone(), online: true }] });
    assert!(map.get_bot_tx(&bot).is_none());
    state.on_meta(&mut map, ConnMeta::Connect { implt: "impl".to_owned() });
    state.on_meta(&mut map, ConnMeta::Other);
    state.on_meta(&mut map, ConnMeta::StatusUpdate { bots: vec![Bot { selft: bot.clone(), online: true }] });
    assert_eq!(map.get_bot_tx(&bot), Some(vec![1]));
}
