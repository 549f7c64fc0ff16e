use walle_core::error::WalleError;
use walle_core::segment::{
    alt, extract, extract_plain_text, segment_ref, BaseSegment, Image, Location, MsgSegment, MsgSegmentRef,
    Reply, Text, ToMsgSegment, TryFromMsgSegment,
};
use walle_core::value::{Float64, TryFromValue, Value, ValueMap};

fn map_of(pairs: Vec<(&str, Value)>) -> ValueMap {
    let mut m = ValueMap::new();
    for (k, v) in pairs {
        m.insert(k.to_owned(), v);
    }
    m
}

fn s(x: &str) -> Value {
    Value::Str(x.to_owned())
}

#[test]
fn segment() {
    let text = "这是一个纯文本消息段";
    let value = Value::Dict(map_of(vec![("type", s("text")), ("data", Value::Dict(map_of(vec![("text", s(text))])))]));
    let seg = MsgSegment { ty: "text".to_owned(), data: map_of(vec![("text", s(text))]) };
    assert_eq!(MsgSegment::try_from_value(value).unwrap(), seg);
    assert_eq!(Text::try_from_msg_segment(seg.clone()).unwrap(), Text { text: text.to_owned() });
    println!("{}", seg.alt_with("{}"));

    let file_id = "e30f9684-3d54-4f65-b2da-db291a477f16";
    let data = || map_of(vec![("file_id", s(file_id)), ("url", s("https://example.com"))]);
    let value = Value::Dict(map_of(vec![("type", s("image")), ("data", Value::Dict(data()))]));
    let seg = MsgSegment { ty: "image".to_owned(), data: data() };
    assert_eq!(MsgSegment::try_from_value(value).unwrap(), seg);
    let base = BaseSegment::<Image>::try_from_segment(seg.clone()).unwrap();
    assert_eq!(base.segment, Image { file_id: file_id.to_owned() });
    assert_eq!(base.extra, map_of(vec![("url", s("https://example.com"))]));
    println!("{}", seg.alt_with("{\"file_id\":\"e30f9684-3d54-4f65-b2da-db291a477f16\",\"url\":\"https://example.com\"}"));
}

#[test]
fn segment_value_errors() {
    assert_eq!(
        MsgSegment::try_from_value(Value::Int(1)),
        Err(WalleError::ValueTypeNotMatch("map".to_owned(), "Int(1)".to_owned()))
    );
    assert_eq!(
        MsgSegment::try_from_value(Value::Dict(map_of(vec![("type", s("text"))]))),
        Err(WalleError::MapMissedKey("data".to_owned()))
    );
    assert_eq!(
        MsgSegment::try_from_value(Value::Dict(map_of(vec![("data", Value::Dict(ValueMap::new()))]))),
        Err(WalleError::MapMissedKey("type".to_owned()))
    );
    assert_eq!(
        MsgSegment::try_from_value(Value::Dict(map_of(vec![("type", s("text")), ("data", Value::Int(2))]))),
        Err(WalleError::ValueTypeNotMatch("ExtendedMap".to_owned(), "Int(2)".to_owned()))
    );
}

#[test]
fn alternative_texts() {
    let text = MsgSegment::from_text("hi".to_owned());
    assert_eq!(text.alt_with(""), "hi");
    let empty = MsgSegment { ty: "mention_all".to_owned(), data: ValueMap::new() };
    assert_eq!(empty.alt_with(""), "[mention_all]");
    let image = MsgSegment { ty: "image".to_owned(), data: map_of(vec![("file_id", s("f"))]) };
    assert_eq!(image.alt_with("{\"file_id\":\"f\"}"), "[image,\"file_id\":\"f\"]");
    let odd_text = MsgSegment { ty: "text".to_owned(), data: map_of(vec![("text", Value::Int(1))]) };
    assert_eq!(odd_text.alt_with(""), "");
}

#[test]
fn plain_text_joins_text_segments() {
    let segs = vec![
        MsgSegment::from_text("a".to_owned()),
        MsgSegment { ty: "image".to_owned(), data: map_of(vec![("file_id", s("f"))]) },
        MsgSegment::from_text("b".to_owned()),
    ];
    assert_eq!(extract_plain_text(&segs), "a\nb");
    assert_eq!(extract_plain_text(&vec![]), "");
}

#[test]
fn extract_keeps_readable_segments() {
    let segs = vec![
        MsgSegment::from_text("a".to_owned()),
        MsgSegment { ty: "image".to_owned(), data: map_of(vec![("file_id", s("f"))]) },
        MsgSegment { ty: "text".to_owned(), data: ValueMap::new() },
        MsgSegment::from_text("b".to_owned()),
    ];
    let texts: Vec<Text> = extract(segs);
    assert_eq!(texts, vec![Text { text: "a".to_owned() }, Text { text: "b".to_owned() }]);
}

#[test]
fn segment_type_checks() {
    let seg = MsgSegment::from_text("a".to_owned());
    assert_eq!(
        Image::try_from_msg_segment(seg),
        Err(WalleError::DeclareNotMatch("image".to_owned(), "text".to_owned()))
    );
    let reply = Reply { message_id: "m".to_owned(), user_id: "u".to_owned() };
    let seg = reply.clone().to_segment();
    assert_eq!(seg.ty, "reply");
    assert_eq!(Reply::try_from_msg_segment(seg), Ok(reply.clone()));
    assert_eq!(Reply::try_from_value(reply.clone().into_value()), Ok(reply));
    let missing = MsgSegment { ty: "reply".to_owned(), data: map_of(vec![("message_id", s("m"))]) };
    assert_eq!(Reply::try_from_msg_segment(missing), Err(WalleError::MapMissedKey("user_id".to_owned())));
    let loc = Location { latitude: Float64 { bits: 1 }, longitude: Float64 { bits: 2 }, title: "t".to_owned(), content: "c".to_owned() };
    assert_eq!(Location::try_from_msg_segment(loc.clone().to_segment()), Ok(loc));
}

#[test]
fn borrowed_segments() {
    let data = map_of(vec![("text", s("hi"))]);
    match segment_ref("text", &data) {
        Ok(MsgSegmentRef::Text { text, .. }) => assert_eq!(text, "hi"),
        _ => panic!("not a text"),
    }
    match segment_ref("custom", &data) {
        Ok(MsgSegmentRef::Other { ty, .. }) => assert_eq!(ty, "custom"),
        _ => panic!("not other"),
    }
    assert_eq!(
        segment_ref("mention", &data).err(),
        Some(WalleError::MapMissedKey("user_id".to_owned()))
    );
    let bad = map_of(vec![("file_id", Value::Int(3))]);
    assert_eq!(
        segment_ref("image", &bad).err(),
        Some(WalleError::ValueTypeNotMatch("str".to_owned(), "Int(3)".to_owned()))
    );
}

#[test]
fn alt_of_joined_messages() {
    let a = vec![MsgSegment::from_text("hi ".to_owned())];
    let b = vec![
        MsgSegment { ty: "mention_all".to_owned(), data: ValueMap::new() },
        MsgSegment::from_text("!".to_owned()),
    ];
    let ja = vec!["{}".to_owned()];
    let jb = vec!["{}".to_owned(), "{}".to_owned()];
    let mut ab = a.clone();
    ab.extend(b.clone());
    let mut jab = ja.clone();
    jab.extend(jb.clone());
    assert_eq!(alt(&ab, &jab), alt(&a, &ja) + &alt(&b, &jb));
    assert_eq!(alt(&ab, &jab), "hi [mention_all]!");
    assert_eq!(alt(&vec![], &vec![]), "");
}
