use walle_core::error::WalleError;
use walle_core::segment::{segment_mut, try_first_text_mut, try_last_text_mut, MsgSegment, MsgSegmentMut, MsgSegmentRef};
use walle_core::segments_mut::{segments_as_mut, try_iter_text_mut};
use walle_core::util::TryAsMut;
use walle_core::value::{Value, ValueMap};

fn map_of(pairs: Vec<(&str, Value)>) -> ValueMap {
    let mut m = ValueMap::new();
    for (k, v) in pairs {
        m.insert(k.to_owned(), v);
    }
    m
}

fn s(x: &str) -> Value {
    Value::Str(x.to_owned())
}

#[test]
fn change_a_segment_in_place() {
    let mut seg = MsgSegment { ty: "image".to_owned(), data: map_of(vec![("file_id", s("a"))]) };
    match seg.try_as_mut() {
        Ok(MsgSegmentMut::Image { file_id }) => file_id.push_str("b"),
        _ => panic!("no image"),
    }
    assert_eq!(seg.data.get("file_id"), Some(&s("ab")));
    let mut other = MsgSegment { ty: "reply".to_owned(), data: ValueMap::new() };
    assert!(matches!(other.try_as_mut(), Ok(MsgSegmentMut::Other)));
    let mut data = map_of(vec![("user_id", Value::Int(1))]);
    assert_eq!(
        segment_mut("mention", &mut data).err(),
        Some(WalleError::ValueTypeNotMatch("str".to_owned(), "Int(1)".to_owned()))
    );
}

#[test]
fn change_a_segment_value_in_place() {
    let mut v = Value::Dict(map_of(vec![
        ("type", s("text")),
        ("data", Value::Dict(map_of(vec![("text", s("hi"))]))),
    ]));
    match v._try_as_mut() {
        Ok(MsgSegmentMut::Text { text }) => text.push('!'),
        _ => panic!("no text"),
    }
    let expected = Value::Dict(map_of(vec![
        ("type", s("text")),
        ("data", Value::Dict(map_of(vec![("text", s("hi!"))]))),
    ]));
    assert_eq!(v, expected);
    let mut bad = Value::Dict(map_of(vec![("type", s("text"))]));
    assert_eq!(
        TryAsMut::<MsgSegmentMut>::_try_as_mut(&mut bad).err(),
        Some(WalleError::MapMissedKey("data".to_owned()))
    );
}

#[test]
fn first_and_last_text() {
    let mut segs = vec![
        MsgSegment::from_text("a".to_owned()),
        MsgSegment { ty: "image".to_owned(), data: map_of(vec![("file_id", s("f"))]) },
        MsgSegment::from_text("b".to_owned()),
    ];
    try_first_text_mut(&mut segs).unwrap().push('1');
    try_last_text_mut(&mut segs).unwrap().push('2');
    assert_eq!(segs[0].data.get("text"), Some(&s("a1")));
    assert_eq!(segs[2].data.get("text"), Some(&s("b2")));
    let mut no_text = vec![MsgSegment { ty: "image".to_owned(), data: map_of(vec![("file_id", s("f"))]) }];
    assert_eq!(
        try_first_text_mut(&mut no_text).err(),
        Some(WalleError::Other("first message segment is not text".to_owned()))
    );
    let mut broken = vec![MsgSegment::from_text("a".to_owned()), MsgSegment { ty: "video".to_owned(), data: ValueMap::new() }];
    assert_eq!(
        try_first_text_mut(&mut broken).err(),
        Some(WalleError::MapMissedKey("file_id".to_owned()))
    );
}

#[test]
fn change_every_segment_in_place() {
    let mut segs = vec![
        MsgSegment::from_text("a".to_owned()),
        MsgSegment { ty: "mention".to_owned(), data: map_of(vec![("user_id", s("u"))]) },
        MsgSegment { ty: "reply".to_owned(), data: ValueMap::new() },
    ];
    {
        let views = segments_as_mut(&mut segs).unwrap();
        assert_eq!(views.len(), 3);
        for view in views {
            match view {
                MsgSegmentMut::Text { text } => text.push('1'),
                MsgSegmentMut::Mention { user_id } => user_id.push('2'),
                MsgSegmentMut::Other => {}
                _ => panic!("unexpected view"),
            }
        }
    }
    assert_eq!(segs[0].data.get("text"), Some(&s("a1")));
    assert_eq!(segs[1].data.get("user_id"), Some(&s("u2")));
    let mut bad = vec![
        MsgSegment::from_text("a".to_owned()),
        MsgSegment { ty: "image".to_owned(), data: ValueMap::new() },
    ];
    assert_eq!(
        segments_as_mut(&mut bad).err(),
        Some(WalleError::MapMissedKey("file_id".to_owned()))
    );
}

#[test]
fn change_every_text_in_place() {
    let mut segs = vec![
        MsgSegment::from_text("a".to_owned()),
        MsgSegment { ty: "mention".to_owned(), data: map_of(vec![("user_id", s("u"))]) },
        MsgSegment::from_text("b".to_owned()),
    ];
    {
        let texts = try_iter_text_mut(&mut segs).unwrap();
        assert_eq!(texts.len(), 2);
        for t in texts {
            t.push('!');
        }
    }
    assert_eq!(segs[0].data.get("text"), Some(&s("a!")));
    assert_eq!(segs[1].data.get("user_id"), Some(&s("u")));
    assert_eq!(segs[2].data.get("text"), Some(&s("b!")));
    let mut bad = vec![MsgSegment { ty: "text".to_owned(), data: map_of(vec![("text", Value::Int(3))]) }];
    assert_eq!(
        try_iter_text_mut(&mut bad).err(),
        Some(WalleError::ValueTypeNotMatch("str".to_owned(), "Int(3)".to_owned()))
    );
}

#[test]
fn borrow_a_segment_stored_in_a_map() {
    let seg = Value::Dict(map_of(vec![
        ("type", s("text")),
        ("data", Value::Dict(map_of(vec![("text", s("hi"))]))),
    ]));
    let mut m = map_of(vec![("seg", seg), ("n", Value::Int(1))]);
    match m.try_get_as_ref::<MsgSegmentRef>("seg") {
        Ok(MsgSegmentRef::Text { text, .. }) => assert_eq!(text, "hi"),
        _ => panic!("no text"),
    }
    assert_eq!(
        m.try_get_as_ref::<MsgSegmentRef>("x").err(),
        Some(WalleError::MapMissedKey("x".to_owned()))
    );
    assert_eq!(
        m.try_get_as_ref::<MsgSegmentRef>("n").err(),
        Some(WalleError::ValueTypeNotMatch("map".to_owned(), "Int(1)".to_owned()))
    );
    match m.try_get_as_mut::<MsgSegmentMut>("seg") {
        Ok(MsgSegmentMut::Text { text }) => text.push('!'),
        _ => panic!("no text"),
    }
    let expected = Value::Dict(map_of(vec![
        ("type", s("text")),
        ("data", Value::Dict(map_of(vec![("text", s("hi!"))]))),
    ]));
    assert_eq!(m.get("seg"), Some(&expected));
    assert_eq!(
        m.try_get_as_mut::<MsgSegmentMut>("x").err(),
        Some(WalleError::MapMissedKey("x".to_owned()))
    );
}
