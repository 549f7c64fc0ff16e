use walle_core::custom::{CustomOneBot, HeartbeatConfig, HeartbeatStep, StatusContent};
use walle_core::onebot::{WebhookAction, WebhookEvent};
use walle_core::echo::{Echo, EchoInner, EchoS};
use walle_core::error::WalleError;
use walle_core::hub::UnionMode;
use walle_core::naming::{escape, snake_case};
use walle_core::onebot::{AppOBC, OneBot};
use walle_core::structs::{Bot, Selft, Version};
use walle_core::util::{new_uuid, uuid_at, ContentType, DefaultHandler, DefaultHooks};

#[test]
fn uuid_text_of_bits() {
    assert_eq!(uuid_at(0xa1a2a3a4b1b2c1c2d1d2d3d4d5d6d7d8), "a1a2a3a4-b1b2-c1c2-d1d2-d3d4d5d6d7d8");
    assert_eq!(uuid_at(0), "00000000-0000-0000-0000-000000000000");
    assert_eq!(new_uuid().unwrap().len(), 36);
}

#[test]
fn content_types() {
    assert_eq!(ContentType::new("application/json"), Some(ContentType::Json));
    assert_eq!(ContentType::new("application/msgpack"), Some(ContentType::MsgPack));
    assert_eq!(ContentType::new("text/plain"), None);
    assert_eq!(ContentType::MsgPack.to_string(), "application/msgpack");
}

#[test]
fn echo_tags() {
    let tag = EchoS::with_time("act", 42);
    assert_eq!(tag.0, Some(EchoInner::S("act-42".to_owned())));
    let packed = tag.pack(7u8);
    assert_eq!(packed.get_echo(), tag);
    let (inner, back) = packed.unpack();
    assert_eq!(inner, 7);
    assert_eq!(back, tag);
    let e = Echo { inner: 1u8, echo: None };
    assert_eq!(e.get_echo(), EchoS(None));
    match EchoS::new("t").unwrap().0 {
        Some(EchoInner::S(s)) => assert!(s.starts_with("t-")),
        _ => panic!("no tag"),
    }
}

#[test]
fn names() {
    assert_eq!(snake_case("GetUserInfo".to_owned()), "get_user_info");
    assert_eq!(snake_case("text".to_owned()), "text");
    let mut s = "ty".to_owned();
    escape(&mut s);
    assert_eq!(s, "type");
    let mut s = "implt".to_owned();
    escape(&mut s);
    assert_eq!(s, "impl");
    let mut s = "name".to_owned();
    escape(&mut s);
    assert_eq!(s, "name");
}

#[test]
fn union_mode_bot_id() {
    assert_eq!(UnionMode::Forward.bot_id(), "");
    assert_eq!(UnionMode::Main { bot_id: "b".to_owned(), main: "m".to_owned() }.bot_id(), "b");
    assert_eq!(UnionMode::default().bot_id(), "walle-hub");
}

fn version() -> Version {
    Version {
        implt: "i".to_owned(),
        platform: "p".to_owned(),
        version: "v".to_owned(),
        onebot_version: "12".to_owned(),
    }
}

#[test]
fn onebot_life_cycle() {
    let mut ob = OneBot::new(DefaultHandler, DefaultHooks, version());
    assert!(!ob.is_started());
    assert_eq!(ob.get_signal_rx().err(), Some(WalleError::NotStarted));
    assert_eq!(ob.take_signal().err(), Some(WalleError::NotStarted));
    assert_eq!(ob.begin_start(), Ok(()));
    assert!(ob.is_started());
    assert!(ob.get_signal_rx().is_ok());
    assert_eq!(ob.begin_start(), Err(WalleError::AlreadyStarted));
    assert!(ob.take_signal().is_ok());
    assert!(!ob.is_started());
    assert!(ob.set_signal());
    assert!(!ob.set_signal());
    let status = ob.get_status::<u32>(None);
    assert!(status.good);
    assert!(status.bots.is_empty());
}

#[test]
fn app_side() {
    let mut app: AppOBC<u32, u8> = AppOBC::new();
    assert_eq!(app.next_seg().0, Some(EchoInner::S("0".to_owned())));
    assert_eq!(app.next_seg().0, Some(EchoInner::S("1".to_owned())));
    assert_eq!(app.check_event("meta"), Err(WalleError::Other("blocked".to_owned())));
    assert_eq!(app.check_event("message"), Ok(()));
    app.block_meta_event(false);
    assert_eq!(app.check_event("meta"), Ok(()));
    let bot = Selft { platform: "qq".to_owned(), user_id: "1".to_owned() };
    assert_eq!(app.route_action(&bot), Err(WalleError::BotNotExist));
    let c = app.bots.new_connect(77);
    app.bots.connect_update(c, vec![Bot { selft: bot.clone(), online: true }], "impl");
    assert_eq!(app.route_action(&bot), Ok(77));
    assert!(app.contains_bot(&bot));
    let status = app.gen_status();
    assert_eq!(status.bots, vec![Bot { selft: bot, online: true }]);
    let _ = DefaultHandler::arc();
    let _ = DefaultHooks.arc();
}

#[test]
fn calls_wait_for_their_tagged_response() {
    let mut app: AppOBC<u32, &'static str> = AppOBC::new();
    let bot = Selft { platform: "qq".to_owned(), user_id: "1".to_owned() };
    assert_eq!(app.begin_call(&bot, "lost").err(), Some(WalleError::BotNotExist));
    let c = app.bots.new_connect(5);
    app.bots.connect_update(c, vec![Bot { selft: bot.clone(), online: true }], "impl");
    let (tx, tag) = app.begin_call(&bot, "first").unwrap();
    assert_eq!(tx, 5);
    assert_eq!(tag, EchoS(Some(EchoInner::S("0".to_owned()))));
    let (_, tag2) = app.begin_call(&bot, "second").unwrap();
    assert_eq!(app.deliver(&tag2), Some("second"));
    assert_eq!(app.deliver(&tag2), None);
    assert_eq!(app.deliver(&tag), Some("first"));
}

#[test]
fn a_delivery_leaves_the_registry_as_it_was() {
    let mut app: AppOBC<u32, u8> = AppOBC::new();
    let bot = Selft { platform: "p".to_owned(), user_id: "u".to_owned() };
    let seq = app.open_delivery(bot.clone(), "impl", 3);
    assert_eq!(app.route_action(&bot), Ok(3));
    let tag = app.next_seg();
    app.close_delivery(seq, &tag);
    assert_eq!(app.route_action(&bot), Err(WalleError::BotNotExist));
    assert!(app.bots.conn_seqs().is_empty());
}

#[test]
fn shutdown_reaches_earlier_receivers() {
    let mut ob = OneBot::new(DefaultHandler, DefaultHooks, version());
    assert_eq!(ob.begin_start(), Ok(()));
    let mut rx = ob.get_signal_rx().unwrap();
    assert_eq!(ob.begin_start(), Err(WalleError::AlreadyStarted));
    assert!(!ob.set_signal());
    let tx = ob.take_signal().unwrap();
    assert!(tx.send(()).is_ok());
    assert!(rx.try_recv().is_ok());
}

#[test]
fn snake_case_is_idempotent() {
    let once = snake_case("GetUserInfo".to_owned());
    assert_eq!(snake_case(once.clone()), once);
    assert!(!once.chars().any(|c| c.is_ascii_uppercase()));
    assert_eq!(once.len(), "GetUserInfo".len() + 2);
}

#[test]
fn webhook_answers_after_the_gate() {
    let mut app: AppOBC<u32, u8> = AppOBC::new();
    assert_eq!(app.webhook_step(WebhookEvent::Undecodable), WebhookAction::Respond(String::new()));
    assert!(app.bots.conn_seqs().is_empty());
    let bot = Selft { platform: "p".to_owned(), user_id: "u".to_owned() };
    let step = app.webhook_step(WebhookEvent::Decoded { selft: bot.clone(), implt: "i".to_owned(), tx: 9 });
    assert_eq!(step, WebhookAction::HandleEvent { seq: 0 });
    assert!(app.bots.contains_bot(&bot));
    let step = app.webhook_step(WebhookEvent::ActionArrived { seq: 0, tag: EchoS(None), body: "{}".to_owned() });
    assert_eq!(step, WebhookAction::Respond("{}".to_owned()));
    assert!(!app.bots.contains_bot(&bot));
    assert_eq!(app.webhook_step(WebhookEvent::TimedOut), WebhookAction::Respond(String::new()));
}

#[test]
fn custom_instance_flags() {
    let (tx, _rx) = tokio::sync::broadcast::channel::<u8>(4);
    let mut ob: CustomOneBot<u8, (), 12> =
        CustomOneBot::new("i", "p", "s", HeartbeatConfig { enabled: true, interval: 0 }, (), tx);
    assert_eq!(CustomOneBot::<u8, (), 12>::onebot_version(), 12);
    assert_eq!(ob.get_status(), StatusContent { good: false, online: false });
    assert_eq!(ob.check_run(), Ok(()));
    assert_eq!(ob.heartbeat_interval(), Some(4));
    assert_eq!(ob.heartbeat_step(true), HeartbeatStep::Stop);
    ob.set_running();
    ob.set_online(true);
    assert_eq!(ob.check_run(), Err(WalleError::AlreadyRunning));
    assert_eq!(ob.heartbeat_step(true), HeartbeatStep::Send);
    assert_eq!(ob.heartbeat_step(false), HeartbeatStep::Skip);
    assert_eq!(ob.send_event(1), Ok(1));
    ob.shutdown();
    assert!(ob.is_shutdown());
    assert_eq!(ob.get_status(), StatusContent { good: false, online: true });
    assert_eq!(ob.get_self_id(), "s");
}
