//! Message segments: a type name and a map of data.

use vstd::prelude::*;
use crate::error::{WalleError, WalleResult};
use crate::text::{push_char, push_str};
use crate::util::{TryAsMut, TryAsRef};
use crate::value::{
    opt_field_accepts, opt_field_fails, opt_field_ok,
    Float64, PushToValueMap, TryFromValue, Value, ValueMap, ValueView, declare_mismatch, declare_mismatch_value,
    dict_value, field_accepts, field_fails, field_ok, lemma_dict_view, missed_key,
    type_mismatch,
};

verus! {

/// The model of a segment: its type name and its data.
pub type SegmentView = (Seq<char>, Map<Seq<char>, ValueView>);

/// A message segment.
#[derive(Debug, Clone, PartialEq)]
pub struct MsgSegment {
    pub ty: String,
    pub data: ValueMap,
}

impl View for MsgSegment {
    type V = SegmentView;

    open spec fn view(&self) -> SegmentView {
        (self.ty@, self.data@)
    }
}

/// A message: its segments in order.
pub type Segments = Vec<MsgSegment>;

/// The text of a text segment's data: the string under "text", or the
/// empty string where there is none.
pub open spec fn text_of(data: Map<Seq<char>, ValueView>) -> Seq<char> {
    if data.contains_key("text"@) && data["text"@] is Str {
        data["text"@]->Str_0
    } else {
        Seq::empty()
    }
}

/// The alternative text of a segment, given the JSON text of its data:
/// the text of a text segment; `[ty]` for a segment without data;
/// otherwise `[ty,` followed by the JSON text without its enclosing
/// braces and `]`.
pub open spec fn segment_alt(s: SegmentView, data_json: Seq<char>) -> Seq<char> {
    if s.0 == "text"@ {
        text_of(s.1)
    } else if s.1.len() == 0 {
        "["@ + s.0 + "]"@
    } else {
        "["@ + s.0 + ","@ + data_json.subrange(1, data_json.len() - 1) + "]"@
    }
}

/// The texts of the text segments of a message, in order.
pub open spec fn plain_texts(segs: Seq<SegmentView>) -> Seq<Seq<char>>
    decreases segs.len(),
{
    if segs.len() == 0 {
        Seq::empty()
    } else if segs.last().0 == "text"@ {
        plain_texts(segs.drop_last()).push(text_of(segs.last().1))
    } else {
        plain_texts(segs.drop_last())
    }
}

/// Lines joined by `\n`.
pub open spec fn join_lines(parts: Seq<Seq<char>>) -> Seq<char>
    decreases parts.len(),
{
    if parts.len() == 0 {
        Seq::empty()
    } else if parts.len() == 1 {
        parts[0]
    } else {
        join_lines(parts.drop_last()) + "\n"@ + parts.last()
    }
}

/// The models of the segments of a message.
pub open spec fn segments_view(segs: Seq<MsgSegment>) -> Seq<SegmentView> {
    segs.map_values(|s: MsgSegment| s@)
}

impl MsgSegment {
    /// The alternative text of the segment; `data_json` is the JSON text
    /// of its data, used only for a segment that is neither text nor
    /// empty.
    pub fn alt_with(&self, data_json: &str) -> (r: String)
        requires
            self.ty@ != "text"@ && self.data@.len() != 0 ==> data_json@.len() >= 2,
        ensures
            r@ == segment_alt(self@, data_json@),
    {
        proof {
            reveal_strlit("text");
            reveal_strlit("[");
            reveal_strlit("]");
            reveal_strlit(",");
        }
        if crate::text::str_eq(self.ty.as_str(), "text") {
            self.text()
        } else if self.data.len() == 0 {
            let mut out = "[".to_owned();
            push_str(&mut out, self.ty.as_str());
            push_str(&mut out, "]");
            assert(out@ =~= segment_alt(self@, data_json@));
            out
        } else {
            let mut out = "[".to_owned();
            push_str(&mut out, self.ty.as_str());
            push_str(&mut out, ",");
            let n = data_json.unicode_len();
            let inner = data_json.substring_char(1, n - 1);
            push_str(&mut out, inner);
            push_str(&mut out, "]");
            assert(out@ =~= segment_alt(self@, data_json@));
            out
        }
    }

    /// The string under "text" in the data, or the empty string.
    fn text(&self) -> (r: String)
        ensures
            r@ == text_of(self.data@),
    {
        proof { reveal_strlit("text"); }
        match self.data.get("text") {
            Some(v) => match v.as_str() {
                Some(s) => s.to_owned(),
                None => String::new(),
            },
            None => String::new(),
        }
    }

    /// The segment as a value: a map with its type under "type" and its
    /// data under "data".
    pub fn into_value(self) -> (r: Value)
        ensures
            r@ == ValueView::Dict(
                Map::<Seq<char>, ValueView>::empty().insert("type"@, ValueView::Str(self.ty@)).insert(
                    "data"@,
                    ValueView::Dict(self.data@),
                ),
            ),
    {
        proof { lemma_dict_view(self.data); }
        let mut m = ValueMap::new();
        let _ = m.insert("type".to_owned(), Value::Str(self.ty));
        let _ = m.insert("data".to_owned(), Value::Dict(self.data));
        proof { reveal_strlit("type"); reveal_strlit("data"); lemma_dict_view(m); }
        Value::Dict(m)
    }

    /// A text segment.
    pub fn from_text(text: String) -> (r: MsgSegment)
        ensures
            r.ty@ == "text"@,
            r.data@ == Map::<Seq<char>, ValueView>::empty().insert("text"@, ValueView::Str(text@)),
    {
        let mut data = ValueMap::new();
        let _ = data.insert("text".to_owned(), Value::Str(text));
        proof { reveal_strlit("text"); }
        MsgSegment { ty: "text".to_owned(), data }
    }
}


/// The value `v` stands for the segment `s`: a map with a string under
/// "type" and a map under "data".
pub open spec fn value_is_segment(v: ValueView, s: SegmentView) -> bool {
    v matches ValueView::Dict(m)
        && m.contains_key("type"@) && m["type"@] == ValueView::Str(s.0)
        && m.contains_key("data"@) && m["data"@] == ValueView::Dict(s.1)
}

/// Whether `v` stands for some segment.
pub open spec fn value_has_segment(v: ValueView) -> bool {
    v matches ValueView::Dict(m)
        && m.contains_key("type"@) && m["type"@] is Str
        && m.contains_key("data"@) && m["data"@] is Dict
}

/// The error of reading a segment from `v`: a non-map value, then the
/// "type" field, then a missing "data" field, then a "data" field that is
/// no map.
pub open spec fn segment_value_error(v: ValueView, e: WalleError) -> bool {
    match v {
        ValueView::Dict(m) => if !crate::value::field_accepts::<String>(m, "type"@) {
            crate::value::field_fails::<String>(m, "type"@, e)
        } else if !m.contains_key("data"@) {
            missed_key(e, "data"@)
        } else {
            type_mismatch(e, "ExtendedMap"@, m["data"@])
        },
        _ => type_mismatch(e, "map"@, v),
    }
}

impl MsgSegment {
    /// Reads a segment from a value.
    pub fn try_from_value(v: Value) -> (r: WalleResult<MsgSegment>)
        ensures
            match r {
                Ok(s) => value_is_segment(v@, s@),
                Err(e) => !value_has_segment(v@) && segment_value_error(v@, e),
            },
    {
        proof { reveal_strlit("type"); reveal_strlit("data"); reveal_strlit("map"); reveal_strlit("alloc::string::String"); }
        let ghost vv = v@;
        assert("data"@ != "type"@) by {
            assert("data"@[0] == 'd');
            assert("type"@[0] == 't');
        }
        match v {
            Value::Dict(m) => {
                proof { lemma_dict_view(m); }
                let mut m = m;
                let ghost m0 = m@;
                let ty = match m.remove_downcast::<String>("type") {
                    Ok(t) => t,
                    Err(e) => return Err(e),
                };
                let ghost m1 = m@;
                assert(m1 == m0.remove("type"@));
                match m.remove("data") {
                    Some(d) => {
                        assert(m0.contains_key("data"@));
                        assert(d@ == m0["data"@]);
                        match d.downcast_map() {
                            Ok(data) => {
                                assert(m0["type"@] == ValueView::Str(ty@));
                                assert(vv == ValueView::Dict(m0));
                                let s = MsgSegment { ty, data };
                                assert(value_is_segment(vv, s@));
                                Ok(s)
                            },
                            Err(e) => {
                                assert(crate::value::field_accepts::<String>(m0, "type"@));
                                assert(m0.contains_key("data"@));
                                assert(type_mismatch(e, "ExtendedMap"@, m0["data"@]));
                                assert(segment_value_error(vv, e));
                                Err(e)
                            },
                        }
                    },
                    None => {
                        Err(WalleError::MapMissedKey("data".to_owned()))
                    },
                }
            },
            other => Err(WalleError::ValueTypeNotMatch("map".to_owned(), other.debug_text())),
        }
    }
}


/// Types that are the data of a segment of a fixed type name.
pub trait ToMsgSegment: PushToValueMap {
    /// The type name of the segment.
    spec fn spec_ty() -> Seq<char>;

    /// The type name of the segment.
    fn ty(&self) -> (r: &'static str)
        ensures
            r@ == Self::spec_ty(),
    ;

    /// The segment with this data.
    fn to_segment(self) -> (r: MsgSegment)
        ensures
            r@ == (Self::spec_ty(), self.pushed(Map::empty())),
    {
        let ty = self.ty().to_owned();
        let mut data = ValueMap::new();
        self.push_to(&mut data);
        MsgSegment { ty, data }
    }
}

/// Types that can be read from a segment.
pub trait TryFromMsgSegment: Sized {
    /// Whether a segment with model `s` can be read.
    spec fn seg_accepts(s: SegmentView) -> bool;

    /// Whether `x` is what a segment with model `s` reads as.
    spec fn seg_converted(s: SegmentView, x: Self) -> bool;

    /// Whether `e` is the error of reading a segment with model `s`.
    spec fn seg_rejected(s: SegmentView, e: WalleError) -> bool;

    /// The data of a segment with model `s` after it is read.
    spec fn seg_rest(s: SegmentView) -> Map<Seq<char>, ValueView>;

    /// Reads a value from `segment`, removing from its data the fields
    /// read.
    fn try_from_msg_segment_mut(segment: &mut MsgSegment) -> (r: WalleResult<Self>)
        ensures
            final(segment).ty@ == old(segment).ty@,
            final(segment).data@ == Self::seg_rest(old(segment)@),
            match r {
                Ok(x) => Self::seg_accepts(old(segment)@) && Self::seg_converted(old(segment)@, x),
                Err(e) => !Self::seg_accepts(old(segment)@) && Self::seg_rejected(old(segment)@, e),
            },
    ;

    /// Reads a value from `segment`.
    fn try_from_msg_segment(segment: MsgSegment) -> (r: WalleResult<Self>)
        ensures
            match r {
                Ok(x) => Self::seg_accepts(segment@) && Self::seg_converted(segment@, x),
                Err(e) => !Self::seg_accepts(segment@) && Self::seg_rejected(segment@, e),
            },
    {
        let mut segment = segment;
        Self::try_from_msg_segment_mut(&mut segment)
    }
}


/// A segment read as a `T`, with the data fields that `T` did not read.
#[derive(Debug, Clone, PartialEq)]
pub struct BaseSegment<T> {
    pub segment: T,
    pub extra: ValueMap,
}

impl<T: TryFromMsgSegment> BaseSegment<T> {
    /// Reads a `T` from `segment` and keeps the rest of its data.
    pub fn try_from_segment(segment: MsgSegment) -> (r: WalleResult<BaseSegment<T>>)
        ensures
            match r {
                Ok(b) => T::seg_accepts(segment@) && T::seg_converted(segment@, b.segment)
                    && b.extra@ == T::seg_rest(segment@),
                Err(e) => !T::seg_accepts(segment@) && T::seg_rejected(segment@, e),
            },
    {
        let mut segment = segment;
        match T::try_from_msg_segment_mut(&mut segment) {
            Ok(x) => Ok(BaseSegment { segment: x, extra: segment.data }),
            Err(e) => Err(e),
        }
    }
}


/// Things that make a message.
pub trait IntoMessage: Sized {
    fn into_message(self) -> Segments;
}

impl IntoMessage for Vec<MsgSegment> {
    /// A message is its own message.
    fn into_message(self) -> (r: Segments)
        ensures
            r == self,
    {
        self
    }
}

impl IntoMessage for MsgSegment {
    /// A segment makes a message of one segment.
    fn into_message(self) -> (r: Segments)
        ensures
            r@ == seq![self],
    {
        let mut v = Vec::new();
        v.push(self);
        v
    }
}

impl IntoMessage for String {
    /// A text makes a message of one text segment.
    fn into_message(self) -> (r: Segments)
        ensures
            r@.len() == 1,
            r@[0].ty@ == "text"@,
            r@[0].data@ == Map::<Seq<char>, ValueView>::empty().insert("text"@, ValueView::Str(self@)),
    {
        let mut v = Vec::new();
        v.push(MsgSegment::from_text(self));
        v
    }
}

/// The alternative texts of the text segments of a message, joined by
/// `\n`.
pub fn extract_plain_text(segs: &Vec<MsgSegment>) -> (r: String)
    ensures
        r@ == join_lines(plain_texts(segments_view(segs@))),
{
    proof { reveal_strlit("text"); }
    let mut out = String::new();
    let mut count: usize = 0;
    let mut i: usize = 0;
    while i < segs.len()
        invariant
            i <= segs@.len(),
            count == plain_texts(segments_view(segs@.take(i as int))).len(),
            out@ == join_lines(plain_texts(segments_view(segs@.take(i as int)))),
        decreases segs@.len() - i,
    {
        let ghost pre = segments_view(segs@.take(i as int));
        proof {
            assert(segments_view(segs@.take(i + 1)) =~= pre.push(segs@[i as int]@));
            assert(pre.push(segs@[i as int]@).drop_last() =~= pre);
            assert(plain_texts(pre).len() <= i) by { lemma_plain_texts_len(pre); }
        }
        if crate::text::str_eq(segs[i].ty.as_str(), "text") {
            let t = segs[i].text();
            if count > 0 {
                push_char(&mut out, '\n');
            }
            push_str(&mut out, t.as_str());
            proof {
                let parts = plain_texts(pre).push(text_of(segs@[i as int].data@));
                assert(parts.drop_last() =~= plain_texts(pre));
                if count == 0 {
                    assert(plain_texts(pre) =~= Seq::<Seq<char>>::empty());
                    assert(out@ =~= join_lines(parts));
                } else {
                    assert("\n"@ =~= seq!['\n']) by { reveal_strlit("\n"); }
                    assert(out@ =~= join_lines(parts));
                }
            }
            count = count + 1;
        }
        i = i + 1;
    }
    assert(segs@.take(segs@.len() as int) =~= segs@);
    out
}

proof fn lemma_plain_texts_len(segs: Seq<SegmentView>)
    ensures
        plain_texts(segs).len() <= segs.len(),
    decreases segs.len(),
{
    if segs.len() > 0 {
        lemma_plain_texts_len(segs.drop_last());
    }
}


/// `out` holds, in order, what `T` reads from each segment of `segs` that
/// it accepts; the other segments are skipped.
pub open spec fn extracted<T: TryFromMsgSegment>(segs: Seq<SegmentView>, out: Seq<T>) -> bool
    decreases segs.len(),
{
    if segs.len() == 0 {
        out.len() == 0
    } else if T::seg_accepts(segs.last()) {
        out.len() > 0 && T::seg_converted(segs.last(), out.last()) && extracted::<T>(segs.drop_last(), out.drop_last())
    } else {
        extracted::<T>(segs.drop_last(), out)
    }
}

/// Reads a `T` from every segment that can be read as one, in order.
pub fn extract<T: TryFromMsgSegment>(segs: Vec<MsgSegment>) -> (r: Vec<T>)
    ensures
        extracted::<T>(segments_view(segs@), r@),
{
    let ghost s0 = segs@;
    let mut segs = segs;
    let n = segs.len();
    let mut out: Vec<T> = Vec::new();
    let mut i: usize = 0;
    assert(segments_view(s0.take(0)) =~= Seq::<SegmentView>::empty());
    while i < n
        invariant
            i <= n,
            n == s0.len(),
            segs@ == s0.subrange(i as int, n as int),
            extracted::<T>(segments_view(s0.take(i as int)), out@),
        decreases n - i,
    {
        let seg = segs.remove(0);
        assert(seg == s0[i as int]);
        let ghost pre = segments_view(s0.take(i as int));
        assert(segments_view(s0.take(i + 1)) =~= pre.push(seg@));
        assert(pre.push(seg@).drop_last() =~= pre);
        let ghost before = out@;
        match T::try_from_msg_segment(seg) {
            Ok(x) => {
                out.push(x);
                assert(out@.drop_last() =~= before);
            },
            Err(_) => {},
        }
        assert(segs@ =~= s0.subrange(i + 1, n as int));
        i = i + 1;
    }
    assert(s0.take(n as int) =~= s0);
    out
}

/// A borrowed view of a segment of a known type.
pub enum MsgSegmentRef<'a> {
    Text { text: &'a str, extra: &'a ValueMap },
    Mention { user_id: &'a str, extra: &'a ValueMap },
    MentionAll { extra: &'a ValueMap },
    Image { file_id: &'a str, extra: &'a ValueMap },
    Voice { file_id: &'a str, extra: &'a ValueMap },
    Audio { file_id: &'a str, extra: &'a ValueMap },
    Video { file_id: &'a str, extra: &'a ValueMap },
    File { file_id: &'a str, extra: &'a ValueMap },
    Location { latitude: Float64, longitude: Float64, title: &'a str, content: &'a str, extra: &'a ValueMap },
    Reply { message_id: &'a str, user_id: &'a str, extra: &'a ValueMap },
    Other { ty: &'a str, extra: &'a ValueMap },
}

/// The map holds the string `s` under `k`.
pub open spec fn str_at(m: Map<Seq<char>, ValueView>, k: Seq<char>, s: Seq<char>) -> bool {
    m.contains_key(k) && m[k] == ValueView::Str(s)
}

/// The map holds a string under `k`.
pub open spec fn has_str(m: Map<Seq<char>, ValueView>, k: Seq<char>) -> bool {
    m.contains_key(k) && m[k] is Str
}

/// The map holds a float under `k`.
pub open spec fn has_f64(m: Map<Seq<char>, ValueView>, k: Seq<char>) -> bool {
    m.contains_key(k) && m[k] is F64
}

/// The error of borrowing a string under `k`.
pub open spec fn str_error(m: Map<Seq<char>, ValueView>, k: Seq<char>, e: WalleError) -> bool {
    if !m.contains_key(k) { missed_key(e, k) } else { type_mismatch(e, "str"@, m[k]) }
}

/// The error of reading a float under `k`.
pub open spec fn f64_error(m: Map<Seq<char>, ValueView>, k: Seq<char>, e: WalleError) -> bool {
    if !m.contains_key(k) { missed_key(e, k) } else { type_mismatch(e, "f64"@, m[k]) }
}

/// The type names whose segments carry one string `file_id`.
pub open spec fn is_file_kind(ty: Seq<char>) -> bool {
    ty == "image"@ || ty == "voice"@ || ty == "audio"@ || ty == "video"@ || ty == "file"@
}

/// Whether a segment of type `ty` with data `m` can be borrowed: the
/// fields its type requires are there with the right kinds.  A segment
/// of an unknown type always can.
pub open spec fn ref_accepts(ty: Seq<char>, m: Map<Seq<char>, ValueView>) -> bool {
    if ty == "text"@ {
        has_str(m, "text"@)
    } else if ty == "mention"@ {
        has_str(m, "user_id"@)
    } else if ty == "mention_all"@ {
        true
    } else if is_file_kind(ty) {
        has_str(m, "file_id"@)
    } else if ty == "location"@ {
        has_f64(m, "latitude"@) && has_f64(m, "longitude"@) && has_str(m, "title"@) && has_str(m, "content"@)
    } else if ty == "reply"@ {
        has_str(m, "message_id"@) && has_str(m, "user_id"@)
    } else {
        true
    }
}

/// `r` is the borrowed view of a segment of type `ty` with data `m`.
pub open spec fn ref_matches(ty: Seq<char>, m: Map<Seq<char>, ValueView>, r: MsgSegmentRef) -> bool {
    if ty == "text"@ {
        r matches MsgSegmentRef::Text { text, extra } && str_at(m, "text"@, text@) && extra@ == m
    } else if ty == "mention"@ {
        r matches MsgSegmentRef::Mention { user_id, extra } && str_at(m, "user_id"@, user_id@) && extra@ == m
    } else if ty == "mention_all"@ {
        r matches MsgSegmentRef::MentionAll { extra } && extra@ == m
    } else if ty == "image"@ {
        r matches MsgSegmentRef::Image { file_id, extra } && str_at(m, "file_id"@, file_id@) && extra@ == m
    } else if ty == "voice"@ {
        r matches MsgSegmentRef::Voice { file_id, extra } && str_at(m, "file_id"@, file_id@) && extra@ == m
    } else if ty == "audio"@ {
        r matches MsgSegmentRef::Audio { file_id, extra } && str_at(m, "file_id"@, file_id@) && extra@ == m
    } else if ty == "video"@ {
        r matches MsgSegmentRef::Video { file_id, extra } && str_at(m, "file_id"@, file_id@) && extra@ == m
    } else if ty == "file"@ {
        r matches MsgSegmentRef::File { file_id, extra } && str_at(m, "file_id"@, file_id@) && extra@ == m
    } else if ty == "location"@ {
        r matches MsgSegmentRef::Location { latitude, longitude, title, content, extra }
            && m.contains_key("latitude"@) && m["latitude"@] == ValueView::F64(latitude.bits)
            && m.contains_key("longitude"@) && m["longitude"@] == ValueView::F64(longitude.bits)
            && str_at(m, "title"@, title@) && str_at(m, "content"@, content@) && extra@ == m
    } else if ty == "reply"@ {
        r matches MsgSegmentRef::Reply { message_id, user_id, extra }
            && str_at(m, "message_id"@, message_id@) && str_at(m, "user_id"@, user_id@) && extra@ == m
    } else {
        r matches MsgSegmentRef::Other { ty: t, extra } && t@ == ty && extra@ == m
    }
}

/// The error of borrowing a segment of type `ty` with data `m`: that of
/// the first required field that is missing or of the wrong kind.
pub open spec fn ref_error(ty: Seq<char>, m: Map<Seq<char>, ValueView>, e: WalleError) -> bool {
    if ty == "text"@ {
        str_error(m, "text"@, e)
    } else if ty == "mention"@ {
        str_error(m, "user_id"@, e)
    } else if is_file_kind(ty) {
        str_error(m, "file_id"@, e)
    } else if ty == "location"@ {
        if !has_f64(m, "latitude"@) {
            f64_error(m, "latitude"@, e)
        } else if !has_f64(m, "longitude"@) {
            f64_error(m, "longitude"@, e)
        } else if !has_str(m, "title"@) {
            str_error(m, "title"@, e)
        } else {
            str_error(m, "content"@, e)
        }
    } else if ty == "reply"@ {
        if !has_str(m, "message_id"@) {
            str_error(m, "message_id"@, e)
        } else {
            str_error(m, "user_id"@, e)
        }
    } else {
        false
    }
}

/// Borrows the fields of a segment of type `ty` with data `data`.
pub fn segment_ref<'a>(ty: &'a str, data: &'a ValueMap) -> (r: WalleResult<MsgSegmentRef<'a>>)
    ensures
        match r {
            Ok(x) => ref_accepts(ty@, data@) && ref_matches(ty@, data@, x),
            Err(e) => !ref_accepts(ty@, data@) && ref_error(ty@, data@, e),
        },
{
    proof {
        reveal_strlit("text"); reveal_strlit("mention"); reveal_strlit("mention_all");
        reveal_strlit("image"); reveal_strlit("voice"); reveal_strlit("audio");
        reveal_strlit("video"); reveal_strlit("file"); reveal_strlit("location");
        reveal_strlit("reply"); reveal_strlit("user_id"); reveal_strlit("file_id");
        reveal_strlit("message_id"); reveal_strlit("latitude"); reveal_strlit("longitude");
        reveal_strlit("title"); reveal_strlit("content");
    }
    if crate::text::str_eq(ty, "text") {
        let text = match data.try_get_str("text") { Ok(x) => x, Err(e) => return Err(e) };
        Ok(MsgSegmentRef::Text { text, extra: data })
    } else if crate::text::str_eq(ty, "mention") {
        let user_id = match data.try_get_str("user_id") { Ok(x) => x, Err(e) => return Err(e) };
        Ok(MsgSegmentRef::Mention { user_id, extra: data })
    } else if crate::text::str_eq(ty, "mention_all") {
        Ok(MsgSegmentRef::MentionAll { extra: data })
    } else if crate::text::str_eq(ty, "image") {
        let file_id = match data.try_get_str("file_id") { Ok(x) => x, Err(e) => return Err(e) };
        Ok(MsgSegmentRef::Image { file_id, extra: data })
    } else if crate::text::str_eq(ty, "voice") {
        let file_id = match data.try_get_str("file_id") { Ok(x) => x, Err(e) => return Err(e) };
        Ok(MsgSegmentRef::Voice { file_id, extra: data })
    } else if crate::text::str_eq(ty, "audio") {
        let file_id = match data.try_get_str("file_id") { Ok(x) => x, Err(e) => return Err(e) };
        Ok(MsgSegmentRef::Audio { file_id, extra: data })
    } else if crate::text::str_eq(ty, "video") {
        let file_id = match data.try_get_str("file_id") { Ok(x) => x, Err(e) => return Err(e) };
        Ok(MsgSegmentRef::Video { file_id, extra: data })
    } else if crate::text::str_eq(ty, "file") {
        let file_id = match data.try_get_str("file_id") { Ok(x) => x, Err(e) => return Err(e) };
        Ok(MsgSegmentRef::File { file_id, extra: data })
    } else if crate::text::str_eq(ty, "location") {
        let latitude = match data.try_get_f64("latitude") { Ok(x) => x, Err(e) => return Err(e) };
        let longitude = match data.try_get_f64("longitude") { Ok(x) => x, Err(e) => return Err(e) };
        let title = match data.try_get_str("title") { Ok(x) => x, Err(e) => return Err(e) };
        let content = match data.try_get_str("content") { Ok(x) => x, Err(e) => return Err(e) };
        Ok(MsgSegmentRef::Location { latitude, longitude, title, content, extra: data })
    } else if crate::text::str_eq(ty, "reply") {
        let message_id = match data.try_get_str("message_id") { Ok(x) => x, Err(e) => return Err(e) };
        let user_id = match data.try_get_str("user_id") { Ok(x) => x, Err(e) => return Err(e) };
        Ok(MsgSegmentRef::Reply { message_id, user_id, extra: data })
    } else {
        Ok(MsgSegmentRef::Other { ty, extra: data })
    }
}


impl MsgSegment {
    /// Borrows the fields of the segment.
    pub fn try_as_ref<'a>(&'a self) -> (r: WalleResult<MsgSegmentRef<'a>>)
        ensures
            match r {
                Ok(x) => ref_accepts(self.ty@, self.data@) && ref_matches(self.ty@, self.data@, x),
                Err(e) => !ref_accepts(self.ty@, self.data@) && ref_error(self.ty@, self.data@, e),
            },
    {
        segment_ref(self.ty.as_str(), &self.data)
    }
}

impl<'a> TryAsRef<'a, MsgSegmentRef<'a>> for MsgSegment {
    open spec fn as_ref_accepts(&self) -> bool {
        ref_accepts(self.ty@, self.data@)
    }

    open spec fn as_ref_gives(&self, x: MsgSegmentRef<'a>) -> bool {
        ref_matches(self.ty@, self.data@, x)
    }

    open spec fn as_ref_rejects(&self, e: WalleError) -> bool {
        ref_error(self.ty@, self.data@, e)
    }

    fn _try_as_ref(&'a self) -> (r: WalleResult<MsgSegmentRef<'a>>)
        ensures
            match r {
                Ok(x) => ref_accepts(self.ty@, self.data@) && ref_matches(self.ty@, self.data@, x),
                Err(e) => !ref_accepts(self.ty@, self.data@) && ref_error(self.ty@, self.data@, e),
            },
    {
        self.try_as_ref()
    }
}

/// Whether the value `v` is a map with a string under "type" and a map
/// under "data" whose segment can be borrowed.
pub open spec fn value_ref_accepts(v: ValueView) -> bool {
    v matches ValueView::Dict(m)
        && has_str(m, "type"@)
        && m.contains_key("data"@) && m["data"@] is Dict
        && ref_accepts(m["type"@]->Str_0, m["data"@]->Dict_0)
}

/// The error of borrowing a segment from the value `v`.
pub open spec fn value_ref_error(v: ValueView, e: WalleError) -> bool {
    match v {
        ValueView::Dict(m) => if !has_str(m, "type"@) {
            str_error(m, "type"@, e)
        } else if !(m.contains_key("data"@) && m["data"@] is Dict) {
            if !m.contains_key("data"@) { missed_key(e, "data"@) } else { type_mismatch(e, "map"@, m["data"@]) }
        } else {
            ref_error(m["type"@]->Str_0, m["data"@]->Dict_0, e)
        },
        _ => type_mismatch(e, "map"@, v),
    }
}

impl<'a> TryAsRef<'a, MsgSegmentRef<'a>> for Value {
    open spec fn as_ref_accepts(&self) -> bool {
        value_ref_accepts(self@)
    }

    open spec fn as_ref_gives(&self, x: MsgSegmentRef<'a>) -> bool {
        let m = self@->Dict_0;
        ref_matches(m["type"@]->Str_0, m["data"@]->Dict_0, x)
    }

    open spec fn as_ref_rejects(&self, e: WalleError) -> bool {
        value_ref_error(self@, e)
    }

    fn _try_as_ref(&'a self) -> (r: WalleResult<MsgSegmentRef<'a>>)
        ensures
            match r {
                Ok(x) => value_ref_accepts(self@) && ({
                    let m = self@->Dict_0;
                    ref_matches(m["type"@]->Str_0, m["data"@]->Dict_0, x)
                }),
                Err(e) => !value_ref_accepts(self@) && value_ref_error(self@, e),
            },
    {
        proof { reveal_strlit("map"); reveal_strlit("type"); reveal_strlit("data"); }
        match self {
            Value::Dict(m) => {
                proof { lemma_dict_view(*m); }
                let ty = match m.try_get_str("type") { Ok(t) => t, Err(e) => return Err(e) };
                let data = match m.try_get_map("data") { Ok(d) => d, Err(e) => return Err(e) };
                segment_ref(ty, data)
            },
            _ => Err(WalleError::ValueTypeNotMatch("map".to_owned(), self.debug_text())),
        }
    }
}

/// Every segment of `segs` can be borrowed.
pub open spec fn all_ref_accept(segs: Seq<SegmentView>) -> bool {
    forall|i: int| 0 <= i < segs.len() ==> #[trigger] ref_accepts(segs[i].0, segs[i].1)
}

/// Borrows the fields of every segment of a message; the first segment
/// that cannot be borrowed decides the error.
pub fn segments_as_ref<'a>(segs: &'a Vec<MsgSegment>) -> (r: WalleResult<Vec<MsgSegmentRef<'a>>>)
    ensures
        match r {
            Ok(v) => all_ref_accept(segments_view(segs@)) && v@.len() == segs@.len()
                && forall|i: int| 0 <= i < v@.len() ==> #[trigger] ref_matches(segs@[i].ty@, segs@[i].data@, v@[i]),
            Err(e) => !all_ref_accept(segments_view(segs@)) && exists|j: int| 0 <= j < segs@.len()
                && !ref_accepts(segs@[j].ty@, segs@[j].data@)
                && (forall|i: int| 0 <= i < j ==> ref_accepts(#[trigger] segs@[i].ty@, segs@[i].data@))
                && #[trigger] ref_error(segs@[j].ty@, segs@[j].data@, e),
        },
{
    let mut out: Vec<MsgSegmentRef<'a>> = Vec::new();
    let mut i: usize = 0;
    while i < segs.len()
        invariant
            i <= segs@.len(),
            out@.len() == i,
            forall|j: int| 0 <= j < i ==> ref_accepts(#[trigger] segs@[j].ty@, segs@[j].data@),
            forall|j: int| 0 <= j < i ==> #[trigger] ref_matches(segs@[j].ty@, segs@[j].data@, out@[j]),
        decreases segs@.len() - i,
    {
        match segs[i].try_as_ref() {
            Ok(x) => {
                let ghost before = out@;
                out.push(x);
                assert forall|j: int| 0 <= j < i + 1 implies #[trigger] ref_matches(segs@[j].ty@, segs@[j].data@, out@[j]) by {
                    if j < i { assert(out@[j] == before[j]); }
                }
            },
            Err(e) => {
                proof {
                    let sv = segments_view(segs@);
                    assert(sv[i as int] == segs@[i as int]@);
                    assert(!ref_accepts(sv[i as int].0, sv[i as int].1));
                }
                return Err(e);
            },
        }
        i = i + 1;
    }
    proof {
        let sv = segments_view(segs@);
        assert forall|j: int| 0 <= j < sv.len() implies #[trigger] ref_accepts(sv[j].0, sv[j].1) by {
            assert(sv[j] == segs@[j]@);
            assert(ref_accepts(segs@[j].ty@, segs@[j].data@));
        }
    }
    Ok(out)
}


/// The alternative texts of all segments of a message, concatenated;
/// `data_jsons[i]` is the JSON text of the data of segment `i`.
pub open spec fn message_alt(segs: Seq<SegmentView>, data_jsons: Seq<Seq<char>>) -> Seq<char>
    decreases segs.len(),
{
    if segs.len() == 0 || data_jsons.len() == 0 {
        Seq::empty()
    } else {
        message_alt(segs.drop_last(), data_jsons.drop_last()) + segment_alt(segs.last(), data_jsons.last())
    }
}

/// The alternative text of an empty message is empty, and that of two
/// messages one after the other is the text of the first followed by
/// that of the second.
pub proof fn law_message_alt_concat(
    a: Seq<SegmentView>,
    ja: Seq<Seq<char>>,
    b: Seq<SegmentView>,
    jb: Seq<Seq<char>>,
)
    requires
        a.len() == ja.len(),
        b.len() == jb.len(),
    ensures
        message_alt(Seq::empty(), Seq::empty()) == Seq::<char>::empty(),
        message_alt(a + b, ja + jb) == message_alt(a, ja) + message_alt(b, jb),
    decreases b.len(),
{
    if b.len() == 0 {
        assert(a + b =~= a);
        assert(ja + jb =~= ja);
        assert(message_alt(a, ja) + message_alt(b, jb) =~= message_alt(a, ja));
    } else {
        law_message_alt_concat(a, ja, b.drop_last(), jb.drop_last());
        assert((a + b).drop_last() =~= a + b.drop_last());
        assert((ja + jb).drop_last() =~= ja + jb.drop_last());
        assert((a + b).last() == b.last());
        assert((ja + jb).last() == jb.last());
        assert(message_alt(a + b, ja + jb) =~= message_alt(a, ja) + message_alt(b, jb));
    }
}

/// The alternative text of a message: the alternative texts of its
/// segments, concatenated.
pub fn alt(segs: &Vec<MsgSegment>, data_jsons: &Vec<String>) -> (r: String)
    requires
        data_jsons@.len() == segs@.len(),
        forall|i: int| 0 <= i < segs@.len() && segs@[i].ty@ != "text"@ && segs@[i].data@.len() != 0
            ==> #[trigger] data_jsons@[i]@.len() >= 2,
    ensures
        r@ == message_alt(segments_view(segs@), data_jsons@.map_values(|j: String| j@)),
{
    let mut out = String::new();
    let mut i: usize = 0;
    while i < segs.len()
        invariant
            i <= segs@.len(),
            data_jsons@.len() == segs@.len(),
            forall|k: int| 0 <= k < segs@.len() && segs@[k].ty@ != "text"@ && segs@[k].data@.len() != 0
                ==> #[trigger] data_jsons@[k]@.len() >= 2,
            out@ == message_alt(segments_view(segs@.take(i as int)), data_jsons@.take(i as int).map_values(|j: String| j@)),
        decreases segs@.len() - i,
    {
        let a = segs[i].alt_with(data_jsons[i].as_str());
        push_str(&mut out, a.as_str());
        proof {
            let sv = segments_view(segs@.take(i + 1));
            let jv = data_jsons@.take(i + 1).map_values(|j: String| j@);
            assert(sv.drop_last() =~= segments_view(segs@.take(i as int)));
            assert(jv.drop_last() =~= data_jsons@.take(i as int).map_values(|j: String| j@));
            assert(sv.last() == segs@[i as int]@);
            assert(jv.last() == data_jsons@[i as int]@);
        }
        i = i + 1;
    }
    assert(segs@.take(segs@.len() as int) =~= segs@);
    assert(data_jsons@.take(segs@.len() as int) =~= data_jsons@);
    out
}


/// A mutable view of the main field of a segment of a known type.
pub enum MsgSegmentMut<'a> {
    Text { text: &'a mut String },
    Mention { user_id: &'a mut String },
    Image { file_id: &'a mut String },
    Voice { file_id: &'a mut String },
    Audio { file_id: &'a mut String },
    Video { file_id: &'a mut String },
    File { file_id: &'a mut String },
    Other,
}

/// The field that a segment of type `ty` lends mutably, if any.
pub open spec fn mut_field(ty: Seq<char>) -> Option<Seq<char>> {
    if ty == "text"@ {
        Some("text"@)
    } else if ty == "mention"@ {
        Some("user_id"@)
    } else if is_file_kind(ty) {
        Some("file_id"@)
    } else {
        None
    }
}

/// Whether a segment of type `ty` with data `m` lends its field: it
/// holds a string there, or its type lends no field.
pub open spec fn mut_accepts(ty: Seq<char>, m: Map<Seq<char>, ValueView>) -> bool {
    match mut_field(ty) {
        Some(k) => has_str(m, k),
        None => true,
    }
}

/// The variant of `MsgSegmentMut` for a segment of type `ty`.
pub open spec fn mut_variant_matches(ty: Seq<char>, r: MsgSegmentMut) -> bool {
    if ty == "text"@ {
        r is Text
    } else if ty == "mention"@ {
        r is Mention
    } else if ty == "image"@ {
        r is Image
    } else if ty == "voice"@ {
        r is Voice
    } else if ty == "audio"@ {
        r is Audio
    } else if ty == "video"@ {
        r is Video
    } else if ty == "file"@ {
        r is File
    } else {
        r is Other
    }
}

/// The string a mutable view lends, if any.
pub open spec fn lent<'a>(r: MsgSegmentMut<'a>) -> Option<&'a mut String> {
    match r {
        MsgSegmentMut::Text { text } => Some(text),
        MsgSegmentMut::Mention { user_id } => Some(user_id),
        MsgSegmentMut::Image { file_id } => Some(file_id),
        MsgSegmentMut::Voice { file_id } => Some(file_id),
        MsgSegmentMut::Audio { file_id } => Some(file_id),
        MsgSegmentMut::Video { file_id } => Some(file_id),
        MsgSegmentMut::File { file_id } => Some(file_id),
        MsgSegmentMut::Other => None,
    }
}

/// Lends the main field of a segment of type `ty` with data `data`: the
/// text of a text segment, the user of a mention, the file of a file-like
/// segment; nothing for other types.  Changes through the view change
/// the data.
pub fn segment_mut<'a>(ty: &str, data: &'a mut ValueMap) -> (r: WalleResult<MsgSegmentMut<'a>>)
    ensures
        r is Ok == mut_accepts(ty@, old(data)@),
        match r {
            Ok(x) => mut_variant_matches(ty@, x) && match lent(x) {
                Some(s) => str_at(old(data)@, mut_field(ty@)->0, (*s)@)
                    && final(data)@ == old(data)@.insert(mut_field(ty@)->0, ValueView::Str(final(s)@)),
                None => final(data)@ == old(data)@,
            },
            Err(e) => final(data)@ == old(data)@ && str_error(old(data)@, mut_field(ty@)->0, e),
        },
{
    proof {
        reveal_strlit("text"); reveal_strlit("mention"); reveal_strlit("image");
        reveal_strlit("voice"); reveal_strlit("audio"); reveal_strlit("video");
        reveal_strlit("file"); reveal_strlit("user_id"); reveal_strlit("file_id");
        reveal_strlit("mention_all"); reveal_strlit("location"); reveal_strlit("reply");
    }
    if crate::text::str_eq(ty, "text") {
        match data.try_get_str_mut("text") {
            Ok(text) => Ok(MsgSegmentMut::Text { text }),
            Err(e) => Err(e),
        }
    } else if crate::text::str_eq(ty, "mention") {
        match data.try_get_str_mut("user_id") {
            Ok(user_id) => Ok(MsgSegmentMut::Mention { user_id }),
            Err(e) => Err(e),
        }
    } else if crate::text::str_eq(ty, "image") {
        match data.try_get_str_mut("file_id") {
            Ok(file_id) => Ok(MsgSegmentMut::Image { file_id }),
            Err(e) => Err(e),
        }
    } else if crate::text::str_eq(ty, "voice") {
        match data.try_get_str_mut("file_id") {
            Ok(file_id) => Ok(MsgSegmentMut::Voice { file_id }),
            Err(e) => Err(e),
        }
    } else if crate::text::str_eq(ty, "audio") {
        match data.try_get_str_mut("file_id") {
            Ok(file_id) => Ok(MsgSegmentMut::Audio { file_id }),
            Err(e) => Err(e),
        }
    } else if crate::text::str_eq(ty, "video") {
        match data.try_get_str_mut("file_id") {
            Ok(file_id) => Ok(MsgSegmentMut::Video { file_id }),
            Err(e) => Err(e),
        }
    } else if crate::text::str_eq(ty, "file") {
        match data.try_get_str_mut("file_id") {
            Ok(file_id) => Ok(MsgSegmentMut::File { file_id }),
            Err(e) => Err(e),
        }
    } else {
        Ok(MsgSegmentMut::Other)
    }
}


impl MsgSegment {
    /// Lends the main field of the segment; see `segment_mut`.
    pub fn try_as_mut<'a>(&'a mut self) -> (r: WalleResult<MsgSegmentMut<'a>>)
        ensures
            r is Ok == mut_accepts(old(self).ty@, old(self).data@),
            final(self).ty == old(self).ty,
            match r {
                Ok(x) => mut_variant_matches(old(self).ty@, x) && match lent(x) {
                    Some(s) => str_at(old(self).data@, mut_field(old(self).ty@)->0, (*s)@)
                        && final(self).data@ == old(self).data@.insert(mut_field(old(self).ty@)->0, ValueView::Str(final(s)@)),
                    None => final(self).data@ == old(self).data@,
                },
                Err(e) => final(self).data@ == old(self).data@ && str_error(old(self).data@, mut_field(old(self).ty@)->0, e),
            },
    {
        segment_mut(self.ty.as_str(), &mut self.data)
    }
}

/// The view `x` of a segment of type `ty` with data `m` is of the variant
/// the type calls for and lends the value its field held.
pub open spec fn mut_lends(ty: Seq<char>, m: Map<Seq<char>, ValueView>, x: MsgSegmentMut) -> bool {
    mut_variant_matches(ty, x) && match lent(x) {
        Some(s) => str_at(m, mut_field(ty)->0, (*s)@),
        None => true,
    }
}

impl<'a> TryAsMut<'a, MsgSegmentMut<'a>> for MsgSegment {
    open spec fn as_mut_accepts(&self) -> bool {
        mut_accepts(self.ty@, self.data@)
    }

    open spec fn as_mut_gives(&self, x: MsgSegmentMut<'a>) -> bool {
        mut_lends(self.ty@, self.data@, x)
    }

    open spec fn as_mut_rejects(&self, e: WalleError) -> bool {
        str_error(self.data@, mut_field(self.ty@)->0, e)
    }

    fn _try_as_mut(&'a mut self) -> (r: WalleResult<MsgSegmentMut<'a>>)
        ensures
            r is Ok == mut_accepts(old(self).ty@, old(self).data@),
            final(self).ty == old(self).ty,
    {
        self.try_as_mut()
    }
}


/// The map value `v` names its segment's type, a string, under "type",
/// and holds its data, a map, under "data".
pub open spec fn value_segment_parts(v: ValueView) -> bool {
    v matches ValueView::Dict(m)
        && field_accepts::<String>(m, "type"@)
        && m.contains_key("data"@) && m["data"@] is Dict
}

/// The error of lending the main field of the segment held by `v`.
pub open spec fn value_mut_error(v: ValueView, e: WalleError) -> bool {
    match v {
        ValueView::Dict(m) => if !field_accepts::<String>(m, "type"@) {
            field_fails::<String>(m, "type"@, e)
        } else if !m.contains_key("data"@) {
            missed_key(e, "data"@)
        } else if !(m["data"@] is Dict) {
            type_mismatch(e, "map"@, m["data"@])
        } else {
            str_error(m["data"@]->Dict_0, mut_field(m["type"@]->Str_0)->0, e)
        },
        _ => type_mismatch(e, "map"@, v),
    }
}

impl<'a> TryAsMut<'a, MsgSegmentMut<'a>> for Value {
    open spec fn as_mut_accepts(&self) -> bool {
        value_segment_parts(self@) && mut_accepts(
            self@->Dict_0["type"@]->Str_0,
            self@->Dict_0["data"@]->Dict_0,
        )
    }

    open spec fn as_mut_gives(&self, x: MsgSegmentMut<'a>) -> bool {
        mut_lends(self@->Dict_0["type"@]->Str_0, self@->Dict_0["data"@]->Dict_0, x)
    }

    open spec fn as_mut_rejects(&self, e: WalleError) -> bool {
        value_mut_error(self@, e)
    }

    /// Lends the main field of the segment that a map value holds.
    fn _try_as_mut(&'a mut self) -> (r: WalleResult<MsgSegmentMut<'a>>)
        ensures
            r is Ok == (value_segment_parts(old(self)@) && mut_accepts(
                old(self)@->Dict_0["type"@]->Str_0,
                old(self)@->Dict_0["data"@]->Dict_0,
            )),
            match r {
                Ok(x) => {
                    let m = old(self)@->Dict_0;
                    let ty = m["type"@]->Str_0;
                    let d = m["data"@]->Dict_0;
                    mut_variant_matches(ty, x) && match lent(x) {
                        Some(s) => str_at(d, mut_field(ty)->0, (*s)@) && final(self)@ == ValueView::Dict(
                            m.insert("data"@, ValueView::Dict(d.insert(mut_field(ty)->0, ValueView::Str(final(s)@)))),
                        ),
                        None => final(self)@ == old(self)@,
                    }
                },
                Err(e) => final(self)@ == old(self)@ && value_mut_error(old(self)@, e),
            },
    {
        proof { reveal_strlit("type"); reveal_strlit("data"); reveal_strlit("map"); }
        assert("data"@ != "type"@) by {
            assert("data"@[0] == 'd');
            assert("type"@[0] == 't');
        }
        let ghost v0 = self@;
        match self.try_as_map_mut() {
            Ok(m) => {
                let ghost m0 = m@;
                let ty = match m.get_downcast::<String>("type") {
                    Ok(t) => t,
                    Err(e) => {
                        return Err(e);
                    },
                };
                match m.try_get_map_mut("data") {
                    Ok(d) => {
                        proof {
                            assert(m0.insert("data"@, ValueView::Dict(m0["data"@]->Dict_0)) =~= m0);
                        }
                        let r = segment_mut(ty.as_str(), d);
                        r
                    },
                    Err(e) => Err(e),
                }
            },
            Err(e) => Err(e),
        }
    }
}

/// Whether every segment lends its main field.
pub open spec fn all_mut_accept(segs: Seq<MsgSegment>) -> bool {
    forall|i: int| 0 <= i < segs.len() ==> #[trigger] mut_accepts(segs[i].ty@, segs[i].data@)
}

/// `e` is the error of the first segment that does not lend its field.
pub open spec fn first_mut_error(segs: Seq<MsgSegment>, e: WalleError) -> bool {
    exists|j: int| 0 <= j < segs.len()
        && !mut_accepts(segs[j].ty@, segs[j].data@)
        && (forall|i: int| 0 <= i < j ==> mut_accepts(#[trigger] segs[i].ty@, segs[i].data@))
        && #[trigger] str_error(segs[j].data@, mut_field(segs[j].ty@)->0, e)
}

fn check_mut(ty: &str, data: &ValueMap) -> (r: WalleResult<()>)
    ensures
        r is Ok == mut_accepts(ty@, data@),
        r matches Err(e) ==> str_error(data@, mut_field(ty@)->0, e),
{
    proof {
        reveal_strlit("text"); reveal_strlit("mention"); reveal_strlit("image");
        reveal_strlit("voice"); reveal_strlit("audio"); reveal_strlit("video");
        reveal_strlit("file"); reveal_strlit("user_id"); reveal_strlit("file_id");
    }
    let field = if crate::text::str_eq(ty, "text") {
        "text"
    } else if crate::text::str_eq(ty, "mention") {
        "user_id"
    } else if crate::text::str_eq(ty, "image") || crate::text::str_eq(ty, "voice") || crate::text::str_eq(ty, "audio")
        || crate::text::str_eq(ty, "video") || crate::text::str_eq(ty, "file") {
        "file_id"
    } else {
        return Ok(());
    };
    assert(mut_field(ty@) == Some(field@));
    match data.try_get_str(field) {
        Ok(_) => Ok(()),
        Err(e) => Err(e),
    }
}

pub(crate) fn check_all_mut(segs: &Vec<MsgSegment>) -> (r: WalleResult<()>)
    ensures
        r is Ok == all_mut_accept(segs@),
        r matches Err(e) ==> first_mut_error(segs@, e),
{
    let mut i: usize = 0;
    while i < segs.len()
        invariant
            i <= segs@.len(),
            forall|j: int| 0 <= j < i ==> mut_accepts(#[trigger] segs@[j].ty@, segs@[j].data@),
        decreases segs@.len() - i,
    {
        match check_mut(segs[i].ty.as_str(), &segs[i].data) {
            Ok(()) => {},
            Err(e) => {
                assert(!all_mut_accept(segs@));
                assert(str_error(segs@[i as int].data@, mut_field(segs@[i as int].ty@)->0, e));
                return Err(e);
            },
        }
        i = i + 1;
    }
    Ok(())
}

/// The text of the first segment, to change in place: every segment must
/// lend its main field, and the first must be a text segment.
pub fn try_first_text_mut<'a>(segs: &'a mut Vec<MsgSegment>) -> (r: WalleResult<&'a mut String>)
    ensures
        !all_mut_accept(old(segs)@) ==> (r matches Err(e) && first_mut_error(old(segs)@, e)),
        all_mut_accept(old(segs)@) && !(old(segs)@.len() > 0 && old(segs)@[0].ty@ == "text"@)
            ==> (r matches Err(WalleError::Other(m)) && m@ == "first message segment is not text"@),
        r is Ok == (all_mut_accept(old(segs)@) && old(segs)@.len() > 0 && old(segs)@[0].ty@ == "text"@),
        r is Err ==> final(segs)@ == old(segs)@,
        r matches Ok(s) ==> str_at(old(segs)@[0].data@, "text"@, (*s)@)
            && final(segs)@.len() == old(segs)@.len()
            && (forall|j: int| 0 < j < old(segs)@.len() ==> #[trigger] final(segs)@[j] == old(segs)@[j])
            && final(segs)@[0].ty == old(segs)@[0].ty
            && final(segs)@[0].data@ == old(segs)@[0].data@.insert("text"@, ValueView::Str(final(s)@)),
{
    proof { reveal_strlit("first message segment is not text"); reveal_strlit("text"); }
    match check_all_mut(segs) {
        Ok(()) => {},
        Err(e) => return Err(e),
    }
    if segs.len() == 0 || !crate::text::str_eq(segs[0].ty.as_str(), "text") {
        return Err(WalleError::Other("first message segment is not text".to_owned()));
    }
    assert(mut_accepts(segs@[0].ty@, segs@[0].data@));
    let ghost s0 = segs@;
    let seg = &mut segs[0];
    match seg.data.try_get_str_mut("text") {
        Ok(t) => Ok(t),
        Err(e) => {
            proof { assert(false); }
            Err(e)
        },
    }
}

/// The text of the last segment, to change in place: every segment must
/// lend its main field, and the last must be a text segment.
pub fn try_last_text_mut<'a>(segs: &'a mut Vec<MsgSegment>) -> (r: WalleResult<&'a mut String>)
    ensures
        !all_mut_accept(old(segs)@) ==> (r matches Err(e) && first_mut_error(old(segs)@, e)),
        all_mut_accept(old(segs)@) && !(old(segs)@.len() > 0 && old(segs)@.last().ty@ == "text"@)
            ==> (r matches Err(WalleError::Other(m)) && m@ == "first message segment is not text"@),
        r is Ok == (all_mut_accept(old(segs)@) && old(segs)@.len() > 0 && old(segs)@.last().ty@ == "text"@),
        r is Err ==> final(segs)@ == old(segs)@,
        r matches Ok(s) ==> str_at(old(segs)@.last().data@, "text"@, (*s)@)
            && final(segs)@.len() == old(segs)@.len()
            && (forall|j: int| 0 <= j < old(segs)@.len() - 1 ==> #[trigger] final(segs)@[j] == old(segs)@[j])
            && final(segs)@.last().ty == old(segs)@.last().ty
            && final(segs)@.last().data@ == old(segs)@.last().data@.insert("text"@, ValueView::Str(final(s)@)),
{
    proof { reveal_strlit("first message segment is not text"); reveal_strlit("text"); }
    match check_all_mut(segs) {
        Ok(()) => {},
        Err(e) => return Err(e),
    }
    let n = segs.len();
    if n == 0 || !crate::text::str_eq(segs[n - 1].ty.as_str(), "text") {
        return Err(WalleError::Other("first message segment is not text".to_owned()));
    }
    assert(mut_accepts(segs@[n - 1].ty@, segs@[n - 1].data@));
    let seg = &mut segs[n - 1];
    match seg.data.try_get_str_mut("text") {
        Ok(t) => Ok(t),
        Err(e) => {
            proof { assert(false); }
            Err(e)
        },
    }
}

/// A text segment.
#[derive(Debug, Clone, PartialEq)]
pub struct Text {
    pub text: String,
}

impl Text {
    /// Every field of a `Text` can be read from the map `m`.
    pub open spec fn fields_accept(m: Map<Seq<char>, ValueView>) -> bool {
        &&& field_accepts::<String>(m, "text"@)
    }

    /// `x` holds what the fields of the map `m` read as.
    pub open spec fn fields_match(m: Map<Seq<char>, ValueView>, x: Text) -> bool {
        &&& field_ok::<String>(m, "text"@, x.text)
    }

    /// `e` is the error of the first field of the map `m` that cannot be read.
    pub open spec fn fields_error(m: Map<Seq<char>, ValueView>, e: WalleError) -> bool {
        if !field_accepts::<String>(m, "text"@) {
            field_fails::<String>(m, "text"@, e)
        } else {
            false
        }
    }

    /// The map `m` after the fields are read from it: every field read
    /// up to and including the first that fails is removed.
    pub open spec fn fields_rest(m: Map<Seq<char>, ValueView>) -> Map<Seq<char>, ValueView> {
        if !field_accepts::<String>(m, "text"@) {
            m.remove("text"@)
        } else {
            m.remove("text"@)
        }
    }

    /// Reads a `Text` from the fields of `map`, removing each field read.
    pub fn from_map(map: &mut ValueMap) -> (r: WalleResult<Text>)
        ensures
            final(map)@ == Text::fields_rest(old(map)@),
            match r {
                Ok(x) => Text::fields_accept(old(map)@) && Text::fields_match(old(map)@, x),
                Err(e) => !Text::fields_accept(old(map)@) && Text::fields_error(old(map)@, e),
            },
    {
        proof { reveal_strlit("text"); }
        let ghost m0 = map@;
        let text = match map.remove_downcast::<String>("text") {
            Ok(x) => x,
            Err(e) => return Err(e),
        };
        Ok(Text { text })
    }

    /// The fields of the `Text` as a map.
    pub fn into_map(self) -> (r: ValueMap)
        ensures
            r@ == self.pushed(Map::empty()),
    {
        let mut m = ValueMap::new();
        self.push_to(&mut m);
        m
    }

    /// The `Text` as a map value.
    pub fn into_value(self) -> (r: Value)
        ensures
            r@ == ValueView::Dict(self.pushed(Map::empty())),
    {
        dict_value(self.into_map())
    }
}

impl PushToValueMap for Text {
    open spec fn pushed(self, m: Map<Seq<char>, ValueView>) -> Map<Seq<char>, ValueView> {
        m.insert("text"@, ValueView::Str(self.text@))
    }

    fn push_to(self, map: &mut ValueMap) {
        proof { reveal_strlit("text"); }
        let _ = map.insert("text".to_owned(), Value::Str(self.text));
    }
}

impl TryFromValue for Text {
    open spec fn accepts(v: ValueView) -> bool {
        v matches ValueView::Dict(m) && Text::fields_accept(m)
    }

    open spec fn converted(v: ValueView, r: Text) -> bool {
        v matches ValueView::Dict(m) && Text::fields_match(m, r)
    }

    open spec fn rejected(v: ValueView, e: WalleError) -> bool {
        match v {
            ValueView::Dict(m) => Text::fields_error(m, e),
            _ => declare_mismatch_value(e, "Map Value"@, v),
        }
    }

    open spec fn spec_target_name() -> Seq<char> {
        "walle_core::segment::Text"@
    }

    fn target_name() -> (r: String) {
        proof { reveal_strlit("walle_core::segment::Text"); }
        "walle_core::segment::Text".to_owned()
    }

    fn try_from_value(v: Value) -> (r: WalleResult<Text>) {
        proof { reveal_strlit("Map Value"); }
        match v {
            Value::Dict(m) => {
                proof { lemma_dict_view(m); }
                let mut m = m;
                Text::from_map(&mut m)
            },
            other => Err(WalleError::DeclareNotMatch("Map Value".to_owned(), other.debug_text())),
        }
    }
}

impl ToMsgSegment for Text {
    open spec fn spec_ty() -> Seq<char> {
        "text"@
    }

    fn ty(&self) -> (r: &'static str) {
        proof { reveal_strlit("text"); }
        "text"
    }
}

impl TryFromMsgSegment for Text {
    open spec fn seg_accepts(s: SegmentView) -> bool {
        s.0 == "text"@ && Text::fields_accept(s.1)
    }

    open spec fn seg_converted(s: SegmentView, x: Text) -> bool {
        Text::fields_match(s.1, x)
    }

    open spec fn seg_rejected(s: SegmentView, e: WalleError) -> bool {
        if s.0 != "text"@ {
            declare_mismatch(e, "text"@, s.0)
        } else {
            Text::fields_error(s.1, e)
        }
    }

    open spec fn seg_rest(s: SegmentView) -> Map<Seq<char>, ValueView> {
        if s.0 != "text"@ {
            s.1
        } else {
            Text::fields_rest(s.1)
        }
    }

    fn try_from_msg_segment_mut(segment: &mut MsgSegment) -> (r: WalleResult<Text>) {
        proof { reveal_strlit("text"); }
        if !crate::text::str_eq(segment.ty.as_str(), "text") {
            assert(segment@.1 == old(segment)@.1);
            assert(Self::seg_rest(old(segment)@) == old(segment)@.1);
            return Err(WalleError::DeclareNotMatch("text".to_owned(), segment.ty.clone()));
        }
        assert(Self::seg_rest(old(segment)@) == Text::fields_rest(old(segment).data@));
        Text::from_map(&mut segment.data)
    }
}

/// A segment that mentions a user.
#[derive(Debug, Clone, PartialEq)]
pub struct Mention {
    pub user_id: String,
}

impl Mention {
    /// Every field of a `Mention` can be read from the map `m`.
    pub open spec fn fields_accept(m: Map<Seq<char>, ValueView>) -> bool {
        &&& field_accepts::<String>(m, "user_id"@)
    }

    /// `x` holds what the fields of the map `m` read as.
    pub open spec fn fields_match(m: Map<Seq<char>, ValueView>, x: Mention) -> bool {
        &&& field_ok::<String>(m, "user_id"@, x.user_id)
    }

    /// `e` is the error of the first field of the map `m` that cannot be read.
    pub open spec fn fields_error(m: Map<Seq<char>, ValueView>, e: WalleError) -> bool {
        if !field_accepts::<String>(m, "user_id"@) {
            field_fails::<String>(m, "user_id"@, e)
        } else {
            false
        }
    }

    /// The map `m` after the fields are read from it: every field read
    /// up to and including the first that fails is removed.
    pub open spec fn fields_rest(m: Map<Seq<char>, ValueView>) -> Map<Seq<char>, ValueView> {
        if !field_accepts::<String>(m, "user_id"@) {
            m.remove("user_id"@)
        } else {
            m.remove("user_id"@)
        }
    }

    /// Reads a `Mention` from the fields of `map`, removing each field read.
    pub fn from_map(map: &mut ValueMap) -> (r: WalleResult<Mention>)
        ensures
            final(map)@ == Mention::fields_rest(old(map)@),
            match r {
                Ok(x) => Mention::fields_accept(old(map)@) && Mention::fields_match(old(map)@, x),
                Err(e) => !Mention::fields_accept(old(map)@) && Mention::fields_error(old(map)@, e),
            },
    {
        proof { reveal_strlit("user_id"); }
        let ghost m0 = map@;
        let user_id = match map.remove_downcast::<String>("user_id") {
            Ok(x) => x,
            Err(e) => return Err(e),
        };
        Ok(Mention { user_id })
    }

    /// The fields of the `Mention` as a map.
    pub fn into_map(self) -> (r: ValueMap)
        ensures
            r@ == self.pushed(Map::empty()),
    {
        let mut m = ValueMap::new();
        self.push_to(&mut m);
        m
    }

    /// The `Mention` as a map value.
    pub fn into_value(self) -> (r: Value)
        ensures
            r@ == ValueView::Dict(self.pushed(Map::empty())),
    {
        dict_value(self.into_map())
    }
}

impl PushToValueMap for Mention {
    open spec fn pushed(self, m: Map<Seq<char>, ValueView>) -> Map<Seq<char>, ValueView> {
        m.insert("user_id"@, ValueView::Str(self.user_id@))
    }

    fn push_to(self, map: &mut ValueMap) {
        proof { reveal_strlit("user_id"); }
        let _ = map.insert("user_id".to_owned(), Value::Str(self.user_id));
    }
}

impl TryFromValue for Mention {
    open spec fn accepts(v: ValueView) -> bool {
        v matches ValueView::Dict(m) && Mention::fields_accept(m)
    }

    open spec fn converted(v: ValueView, r: Mention) -> bool {
        v matches ValueView::Dict(m) && Mention::fields_match(m, r)
    }

    open spec fn rejected(v: ValueView, e: WalleError) -> bool {
        match v {
            ValueView::Dict(m) => Mention::fields_error(m, e),
            _ => declare_mismatch_value(e, "Map Value"@, v),
        }
    }

    open spec fn spec_target_name() -> Seq<char> {
        "walle_core::segment::Mention"@
    }

    fn target_name() -> (r: String) {
        proof { reveal_strlit("walle_core::segment::Mention"); }
        "walle_core::segment::Mention".to_owned()
    }

    fn try_from_value(v: Value) -> (r: WalleResult<Mention>) {
        proof { reveal_strlit("Map Value"); }
        match v {
            Value::Dict(m) => {
                proof { lemma_dict_view(m); }
                let mut m = m;
                Mention::from_map(&mut m)
            },
            other => Err(WalleError::DeclareNotMatch("Map Value".to_owned(), other.debug_text())),
        }
    }
}

impl ToMsgSegment for Mention {
    open spec fn spec_ty() -> Seq<char> {
        "mention"@
    }

    fn ty(&self) -> (r: &'static str) {
        proof { reveal_strlit("mention"); }
        "mention"
    }
}

impl TryFromMsgSegment for Mention {
    open spec fn seg_accepts(s: SegmentView) -> bool {
        s.0 == "mention"@ && Mention::fields_accept(s.1)
    }

    open spec fn seg_converted(s: SegmentView, x: Mention) -> bool {
        Mention::fields_match(s.1, x)
    }

    open spec fn seg_rejected(s: SegmentView, e: WalleError) -> bool {
        if s.0 != "mention"@ {
            declare_mismatch(e, "mention"@, s.0)
        } else {
            Mention::fields_error(s.1, e)
        }
    }

    open spec fn seg_rest(s: SegmentView) -> Map<Seq<char>, ValueView> {
        if s.0 != "mention"@ {
            s.1
        } else {
            Mention::fields_rest(s.1)
        }
    }

    fn try_from_msg_segment_mut(segment: &mut MsgSegment) -> (r: WalleResult<Mention>) {
        proof { reveal_strlit("mention"); }
        if !crate::text::str_eq(segment.ty.as_str(), "mention") {
            assert(segment@.1 == old(segment)@.1);
            assert(Self::seg_rest(old(segment)@) == old(segment)@.1);
            return Err(WalleError::DeclareNotMatch("mention".to_owned(), segment.ty.clone()));
        }
        assert(Self::seg_rest(old(segment)@) == Mention::fields_rest(old(segment).data@));
        Mention::from_map(&mut segment.data)
    }
}

/// A segment that mentions everyone.
#[derive(Debug, Clone, PartialEq)]
pub struct MentionAll {
}

impl MentionAll {
    /// Every field of a `MentionAll` can be read from the map `m`.
    pub open spec fn fields_accept(m: Map<Seq<char>, ValueView>) -> bool {
        true
    }

    /// `x` holds what the fields of the map `m` read as.
    pub open spec fn fields_match(m: Map<Seq<char>, ValueView>, x: MentionAll) -> bool {
        true
    }

    /// `e` is the error of the first field of the map `m` that cannot be read.
    pub open spec fn fields_error(m: Map<Seq<char>, ValueView>, e: WalleError) -> bool {
        false
    }

    /// The map `m` after the fields are read from it: every field read
    /// up to and including the first that fails is removed.
    pub open spec fn fields_rest(m: Map<Seq<char>, ValueView>) -> Map<Seq<char>, ValueView> {
        m
    }

    /// Reads a `MentionAll` from the fields of `map`, removing each field read.
    pub fn from_map(map: &mut ValueMap) -> (r: WalleResult<MentionAll>)
        ensures
            final(map)@ == MentionAll::fields_rest(old(map)@),
            match r {
                Ok(x) => MentionAll::fields_accept(old(map)@) && MentionAll::fields_match(old(map)@, x),
                Err(e) => !MentionAll::fields_accept(old(map)@) && MentionAll::fields_error(old(map)@, e),
            },
    {
        let ghost m0 = map@;
        Ok(MentionAll {  })
    }

    /// The fields of the `MentionAll` as a map.
    pub fn into_map(self) -> (r: ValueMap)
        ensures
            r@ == self.pushed(Map::empty()),
    {
        let mut m = ValueMap::new();
        self.push_to(&mut m);
        m
    }

    /// The `MentionAll` as a map value.
    pub fn into_value(self) -> (r: Value)
        ensures
            r@ == ValueView::Dict(self.pushed(Map::empty())),
    {
        dict_value(self.into_map())
    }
}

impl PushToValueMap for MentionAll {
    open spec fn pushed(self, m: Map<Seq<char>, ValueView>) -> Map<Seq<char>, ValueView> {
        m
    }

    fn push_to(self, map: &mut ValueMap) {
    }
}

impl TryFromValue for MentionAll {
    open spec fn accepts(v: ValueView) -> bool {
        v matches ValueView::Dict(m) && MentionAll::fields_accept(m)
    }

    open spec fn converted(v: ValueView, r: MentionAll) -> bool {
        v matches ValueView::Dict(m) && MentionAll::fields_match(m, r)
    }

    open spec fn rejected(v: ValueView, e: WalleError) -> bool {
        match v {
            ValueView::Dict(m) => MentionAll::fields_error(m, e),
            _ => declare_mismatch_value(e, "Map Value"@, v),
        }
    }

    open spec fn spec_target_name() -> Seq<char> {
        "walle_core::segment::MentionAll"@
    }

    fn target_name() -> (r: String) {
        proof { reveal_strlit("walle_core::segment::MentionAll"); }
        "walle_core::segment::MentionAll".to_owned()
    }

    fn try_from_value(v: Value) -> (r: WalleResult<MentionAll>) {
        proof { reveal_strlit("Map Value"); }
        match v {
            Value::Dict(m) => {
                proof { lemma_dict_view(m); }
                let mut m = m;
                MentionAll::from_map(&mut m)
            },
            other => Err(WalleError::DeclareNotMatch("Map Value".to_owned(), other.debug_text())),
        }
    }
}

impl ToMsgSegment for MentionAll {
    open spec fn spec_ty() -> Seq<char> {
        "mention_all"@
    }

    fn ty(&self) -> (r: &'static str) {
        proof { reveal_strlit("mention_all"); }
        "mention_all"
    }
}

impl TryFromMsgSegment for MentionAll {
    open spec fn seg_accepts(s: SegmentView) -> bool {
        s.0 == "mention_all"@ && MentionAll::fields_accept(s.1)
    }

    open spec fn seg_converted(s: SegmentView, x: MentionAll) -> bool {
        MentionAll::fields_match(s.1, x)
    }

    open spec fn seg_rejected(s: SegmentView, e: WalleError) -> bool {
        if s.0 != "mention_all"@ {
            declare_mismatch(e, "mention_all"@, s.0)
        } else {
            MentionAll::fields_error(s.1, e)
        }
    }

    open spec fn seg_rest(s: SegmentView) -> Map<Seq<char>, ValueView> {
        if s.0 != "mention_all"@ {
            s.1
        } else {
            MentionAll::fields_rest(s.1)
        }
    }

    fn try_from_msg_segment_mut(segment: &mut MsgSegment) -> (r: WalleResult<MentionAll>) {
        proof { reveal_strlit("mention_all"); }
        if !crate::text::str_eq(segment.ty.as_str(), "mention_all") {
            assert(segment@.1 == old(segment)@.1);
            assert(Self::seg_rest(old(segment)@) == old(segment)@.1);
            return Err(WalleError::DeclareNotMatch("mention_all".to_owned(), segment.ty.clone()));
        }
        assert(Self::seg_rest(old(segment)@) == MentionAll::fields_rest(old(segment).data@));
        MentionAll::from_map(&mut segment.data)
    }
}

/// An image segment.
#[derive(Debug, Clone, PartialEq)]
pub struct Image {
    pub file_id: String,
}

impl Image {
    /// Every field of a `Image` can be read from the map `m`.
    pub open spec fn fields_accept(m: Map<Seq<char>, ValueView>) -> bool {
        &&& field_accepts::<String>(m, "file_id"@)
    }

    /// `x` holds what the fields of the map `m` read as.
    pub open spec fn fields_match(m: Map<Seq<char>, ValueView>, x: Image) -> bool {
        &&& field_ok::<String>(m, "file_id"@, x.file_id)
    }

    /// `e` is the error of the first field of the map `m` that cannot be read.
    pub open spec fn fields_error(m: Map<Seq<char>, ValueView>, e: WalleError) -> bool {
        if !field_accepts::<String>(m, "file_id"@) {
            field_fails::<String>(m, "file_id"@, e)
        } else {
            false
        }
    }

    /// The map `m` after the fields are read from it: every field read
    /// up to and including the first that fails is removed.
    pub open spec fn fields_rest(m: Map<Seq<char>, ValueView>) -> Map<Seq<char>, ValueView> {
        if !field_accepts::<String>(m, "file_id"@) {
            m.remove("file_id"@)
        } else {
            m.remove("file_id"@)
        }
    }

    /// Reads a `Image` from the fields of `map`, removing each field read.
    pub fn from_map(map: &mut ValueMap) -> (r: WalleResult<Image>)
        ensures
            final(map)@ == Image::fields_rest(old(map)@),
            match r {
                Ok(x) => Image::fields_accept(old(map)@) && Image::fields_match(old(map)@, x),
                Err(e) => !Image::fields_accept(old(map)@) && Image::fields_error(old(map)@, e),
            },
    {
        proof { reveal_strlit("file_id"); }
        let ghost m0 = map@;
        let file_id = match map.remove_downcast::<String>("file_id") {
            Ok(x) => x,
            Err(e) => return Err(e),
        };
        Ok(Image { file_id })
    }

    /// The fields of the `Image` as a map.
    pub fn into_map(self) -> (r: ValueMap)
        ensures
            r@ == self.pushed(Map::empty()),
    {
        let mut m = ValueMap::new();
        self.push_to(&mut m);
        m
    }

    /// The `Image` as a map value.
    pub fn into_value(self) -> (r: Value)
        ensures
            r@ == ValueView::Dict(self.pushed(Map::empty())),
    {
        dict_value(self.into_map())
    }
}

impl PushToValueMap for Image {
    open spec fn pushed(self, m: Map<Seq<char>, ValueView>) -> Map<Seq<char>, ValueView> {
        m.insert("file_id"@, ValueView::Str(self.file_id@))
    }

    fn push_to(self, map: &mut ValueMap) {
        proof { reveal_strlit("file_id"); }
        let _ = map.insert("file_id".to_owned(), Value::Str(self.file_id));
    }
}

impl TryFromValue for Image {
    open spec fn accepts(v: ValueView) -> bool {
        v matches ValueView::Dict(m) && Image::fields_accept(m)
    }

    open spec fn converted(v: ValueView, r: Image) -> bool {
        v matches ValueView::Dict(m) && Image::fields_match(m, r)
    }

    open spec fn rejected(v: ValueView, e: WalleError) -> bool {
        match v {
            ValueView::Dict(m) => Image::fields_error(m, e),
            _ => declare_mismatch_value(e, "Map Value"@, v),
        }
    }

    open spec fn spec_target_name() -> Seq<char> {
        "walle_core::segment::Image"@
    }

    fn target_name() -> (r: String) {
        proof { reveal_strlit("walle_core::segment::Image"); }
        "walle_core::segment::Image".to_owned()
    }

    fn try_from_value(v: Value) -> (r: WalleResult<Image>) {
        proof { reveal_strlit("Map Value"); }
        match v {
            Value::Dict(m) => {
                proof { lemma_dict_view(m); }
                let mut m = m;
                Image::from_map(&mut m)
            },
            other => Err(WalleError::DeclareNotMatch("Map Value".to_owned(), other.debug_text())),
        }
    }
}

impl ToMsgSegment for Image {
    open spec fn spec_ty() -> Seq<char> {
        "image"@
    }

    fn ty(&self) -> (r: &'static str) {
        proof { reveal_strlit("image"); }
        "image"
    }
}

impl TryFromMsgSegment for Image {
    open spec fn seg_accepts(s: SegmentView) -> bool {
        s.0 == "image"@ && Image::fields_accept(s.1)
    }

    open spec fn seg_converted(s: SegmentView, x: Image) -> bool {
        Image::fields_match(s.1, x)
    }

    open spec fn seg_rejected(s: SegmentView, e: WalleError) -> bool {
        if s.0 != "image"@ {
            declare_mismatch(e, "image"@, s.0)
        } else {
            Image::fields_error(s.1, e)
        }
    }

    open spec fn seg_rest(s: SegmentView) -> Map<Seq<char>, ValueView> {
        if s.0 != "image"@ {
            s.1
        } else {
            Image::fields_rest(s.1)
        }
    }

    fn try_from_msg_segment_mut(segment: &mut MsgSegment) -> (r: WalleResult<Image>) {
        proof { reveal_strlit("image"); }
        if !crate::text::str_eq(segment.ty.as_str(), "image") {
            assert(segment@.1 == old(segment)@.1);
            assert(Self::seg_rest(old(segment)@) == old(segment)@.1);
            return Err(WalleError::DeclareNotMatch("image".to_owned(), segment.ty.clone()));
        }
        assert(Self::seg_rest(old(segment)@) == Image::fields_rest(old(segment).data@));
        Image::from_map(&mut segment.data)
    }
}

/// A voice segment.
#[derive(Debug, Clone, PartialEq)]
pub struct Voice {
    pub file_id: String,
}

impl Voice {
    /// Every field of a `Voice` can be read from the map `m`.
    pub open spec fn fields_accept(m: Map<Seq<char>, ValueView>) -> bool {
        &&& field_accepts::<String>(m, "file_id"@)
    }

    /// `x` holds what the fields of the map `m` read as.
    pub open spec fn fields_match(m: Map<Seq<char>, ValueView>, x: Voice) -> bool {
        &&& field_ok::<String>(m, "file_id"@, x.file_id)
    }

    /// `e` is the error of the first field of the map `m` that cannot be read.
    pub open spec fn fields_error(m: Map<Seq<char>, ValueView>, e: WalleError) -> bool {
        if !field_accepts::<String>(m, "file_id"@) {
            field_fails::<String>(m, "file_id"@, e)
        } else {
            false
        }
    }

    /// The map `m` after the fields are read from it: every field read
    /// up to and including the first that fails is removed.
    pub open spec fn fields_rest(m: Map<Seq<char>, ValueView>) -> Map<Seq<char>, ValueView> {
        if !field_accepts::<String>(m, "file_id"@) {
            m.remove("file_id"@)
        } else {
            m.remove("file_id"@)
        }
    }

    /// Reads a `Voice` from the fields of `map`, removing each field read.
    pub fn from_map(map: &mut ValueMap) -> (r: WalleResult<Voice>)
        ensures
            final(map)@ == Voice::fields_rest(old(map)@),
            match r {
                Ok(x) => Voice::fields_accept(old(map)@) && Voice::fields_match(old(map)@, x),
                Err(e) => !Voice::fields_accept(old(map)@) && Voice::fields_error(old(map)@, e),
            },
    {
        proof { reveal_strlit("file_id"); }
        let ghost m0 = map@;
        let file_id = match map.remove_downcast::<String>("file_id") {
            Ok(x) => x,
            Err(e) => return Err(e),
        };
        Ok(Voice { file_id })
    }

    /// The fields of the `Voice` as a map.
    pub fn into_map(self) -> (r: ValueMap)
        ensures
            r@ == self.pushed(Map::empty()),
    {
        let mut m = ValueMap::new();
        self.push_to(&mut m);
        m
    }

    /// The `Voice` as a map value.
    pub fn into_value(self) -> (r: Value)
        ensures
            r@ == ValueView::Dict(self.pushed(Map::empty())),
    {
        dict_value(self.into_map())
    }
}

impl PushToValueMap for Voice {
    open spec fn pushed(self, m: Map<Seq<char>, ValueView>) -> Map<Seq<char>, ValueView> {
        m.insert("file_id"@, ValueView::Str(self.file_id@))
    }

    fn push_to(self, map: &mut ValueMap) {
        proof { reveal_strlit("file_id"); }
        let _ = map.insert("file_id".to_owned(), Value::Str(self.file_id));
    }
}

impl TryFromValue for Voice {
    open spec fn accepts(v: ValueView) -> bool {
        v matches ValueView::Dict(m) && Voice::fields_accept(m)
    }

    open spec fn converted(v: ValueView, r: Voice) -> bool {
        v matches ValueView::Dict(m) && Voice::fields_match(m, r)
    }

    open spec fn rejected(v: ValueView, e: WalleError) -> bool {
        match v {
            ValueView::Dict(m) => Voice::fields_error(m, e),
            _ => declare_mismatch_value(e, "Map Value"@, v),
        }
    }

    open spec fn spec_target_name() -> Seq<char> {
        "walle_core::segment::Voice"@
    }

    fn target_name() -> (r: String) {
        proof { reveal_strlit("walle_core::segment::Voice"); }
        "walle_core::segment::Voice".to_owned()
    }

    fn try_from_value(v: Value) -> (r: WalleResult<Voice>) {
        proof { reveal_strlit("Map Value"); }
        match v {
            Value::Dict(m) => {
                proof { lemma_dict_view(m); }
                let mut m = m;
                Voice::from_map(&mut m)
            },
            other => Err(WalleError::DeclareNotMatch("Map Value".to_owned(), other.debug_text())),
        }
    }
}

impl ToMsgSegment for Voice {
    open spec fn spec_ty() -> Seq<char> {
        "voice"@
    }

    fn ty(&self) -> (r: &'static str) {
        proof { reveal_strlit("voice"); }
        "voice"
    }
}

impl TryFromMsgSegment for Voice {
    open spec fn seg_accepts(s: SegmentView) -> bool {
        s.0 == "voice"@ && Voice::fields_accept(s.1)
    }

    open spec fn seg_converted(s: SegmentView, x: Voice) -> bool {
        Voice::fields_match(s.1, x)
    }

    open spec fn seg_rejected(s: SegmentView, e: WalleError) -> bool {
        if s.0 != "voice"@ {
            declare_mismatch(e, "voice"@, s.0)
        } else {
            Voice::fields_error(s.1, e)
        }
    }

    open spec fn seg_rest(s: SegmentView) -> Map<Seq<char>, ValueView> {
        if s.0 != "voice"@ {
            s.1
        } else {
            Voice::fields_rest(s.1)
        }
    }

    fn try_from_msg_segment_mut(segment: &mut MsgSegment) -> (r: WalleResult<Voice>) {
        proof { reveal_strlit("voice"); }
        if !crate::text::str_eq(segment.ty.as_str(), "voice") {
            assert(segment@.1 == old(segment)@.1);
            assert(Self::seg_rest(old(segment)@) == old(segment)@.1);
            return Err(WalleError::DeclareNotMatch("voice".to_owned(), segment.ty.clone()));
        }
        assert(Self::seg_rest(old(segment)@) == Voice::fields_rest(old(segment).data@));
        Voice::from_map(&mut segment.data)
    }
}

/// An audio segment.
#[derive(Debug, Clone, PartialEq)]
pub struct Audio {
    pub file_id: String,
}

impl Audio {
    /// Every field of a `Audio` can be read from the map `m`.
    pub open spec fn fields_accept(m: Map<Seq<char>, ValueView>) -> bool {
        &&& field_accepts::<String>(m, "file_id"@)
    }

    /// `x` holds what the fields of the map `m` read as.
    pub open spec fn fields_match(m: Map<Seq<char>, ValueView>, x: Audio) -> bool {
        &&& field_ok::<String>(m, "file_id"@, x.file_id)
    }

    /// `e` is the error of the first field of the map `m` that cannot be read.
    pub open spec fn fields_error(m: Map<Seq<char>, ValueView>, e: WalleError) -> bool {
        if !field_accepts::<String>(m, "file_id"@) {
            field_fails::<String>(m, "file_id"@, e)
        } else {
            false
        }
    }

    /// The map `m` after the fields are read from it: every field read
    /// up to and including the first that fails is removed.
    pub open spec fn fields_rest(m: Map<Seq<char>, ValueView>) -> Map<Seq<char>, ValueView> {
        if !field_accepts::<String>(m, "file_id"@) {
            m.remove("file_id"@)
        } else {
            m.remove("file_id"@)
        }
    }

    /// Reads a `Audio` from the fields of `map`, removing each field read.
    pub fn from_map(map: &mut ValueMap) -> (r: WalleResult<Audio>)
        ensures
            final(map)@ == Audio::fields_rest(old(map)@),
            match r {
                Ok(x) => Audio::fields_accept(old(map)@) && Audio::fields_match(old(map)@, x),
                Err(e) => !Audio::fields_accept(old(map)@) && Audio::fields_error(old(map)@, e),
            },
    {
        proof { reveal_strlit("file_id"); }
        let ghost m0 = map@;
        let file_id = match map.remove_downcast::<String>("file_id") {
            Ok(x) => x,
            Err(e) => return Err(e),
        };
        Ok(Audio { file_id })
    }

    /// The fields of the `Audio` as a map.
    pub fn into_map(self) -> (r: ValueMap)
        ensures
            r@ == self.pushed(Map::empty()),
    {
        let mut m = ValueMap::new();
        self.push_to(&mut m);
        m
    }

    /// The `Audio` as a map value.
    pub fn into_value(self) -> (r: Value)
        ensures
            r@ == ValueView::Dict(self.pushed(Map::empty())),
    {
        dict_value(self.into_map())
    }
}

impl PushToValueMap for Audio {
    open spec fn pushed(self, m: Map<Seq<char>, ValueView>) -> Map<Seq<char>, ValueView> {
        m.insert("file_id"@, ValueView::Str(self.file_id@))
    }

    fn push_to(self, map: &mut ValueMap) {
        proof { reveal_strlit("file_id"); }
        let _ = map.insert("file_id".to_owned(), Value::Str(self.file_id));
    }
}

impl TryFromValue for Audio {
    open spec fn accepts(v: ValueView) -> bool {
        v matches ValueView::Dict(m) && Audio::fields_accept(m)
    }

    open spec fn converted(v: ValueView, r: Audio) -> bool {
        v matches ValueView::Dict(m) && Audio::fields_match(m, r)
    }

    open spec fn rejected(v: ValueView, e: WalleError) -> bool {
        match v {
            ValueView::Dict(m) => Audio::fields_error(m, e),
            _ => declare_mismatch_value(e, "Map Value"@, v),
        }
    }

    open spec fn spec_target_name() -> Seq<char> {
        "walle_core::segment::Audio"@
    }

    fn target_name() -> (r: String) {
        proof { reveal_strlit("walle_core::segment::Audio"); }
        "walle_core::segment::Audio".to_owned()
    }

    fn try_from_value(v: Value) -> (r: WalleResult<Audio>) {
        proof { reveal_strlit("Map Value"); }
        match v {
            Value::Dict(m) => {
                proof { lemma_dict_view(m); }
                let mut m = m;
                Audio::from_map(&mut m)
            },
            other => Err(WalleError::DeclareNotMatch("Map Value".to_owned(), other.debug_text())),
        }
    }
}

impl ToMsgSegment for Audio {
    open spec fn spec_ty() -> Seq<char> {
        "audio"@
    }

    fn ty(&self) -> (r: &'static str) {
        proof { reveal_strlit("audio"); }
        "audio"
    }
}

impl TryFromMsgSegment for Audio {
    open spec fn seg_accepts(s: SegmentView) -> bool {
        s.0 == "audio"@ && Audio::fields_accept(s.1)
    }

    open spec fn seg_converted(s: SegmentView, x: Audio) -> bool {
        Audio::fields_match(s.1, x)
    }

    open spec fn seg_rejected(s: SegmentView, e: WalleError) -> bool {
        if s.0 != "audio"@ {
            declare_mismatch(e, "audio"@, s.0)
        } else {
            Audio::fields_error(s.1, e)
        }
    }

    open spec fn seg_rest(s: SegmentView) -> Map<Seq<char>, ValueView> {
        if s.0 != "audio"@ {
            s.1
        } else {
            Audio::fields_rest(s.1)
        }
    }

    fn try_from_msg_segment_mut(segment: &mut MsgSegment) -> (r: WalleResult<Audio>) {
        proof { reveal_strlit("audio"); }
        if !crate::text::str_eq(segment.ty.as_str(), "audio") {
            assert(segment@.1 == old(segment)@.1);
            assert(Self::seg_rest(old(segment)@) == old(segment)@.1);
            return Err(WalleError::DeclareNotMatch("audio".to_owned(), segment.ty.clone()));
        }
        assert(Self::seg_rest(old(segment)@) == Audio::fields_rest(old(segment).data@));
        Audio::from_map(&mut segment.data)
    }
}

/// A video segment.
#[derive(Debug, Clone, PartialEq)]
pub struct Video {
    pub file_id: String,
}

impl Video {
    /// Every field of a `Video` can be read from the map `m`.
    pub open spec fn fields_accept(m: Map<Seq<char>, ValueView>) -> bool {
        &&& field_accepts::<String>(m, "file_id"@)
    }

    /// `x` holds what the fields of the map `m` read as.
    pub open spec fn fields_match(m: Map<Seq<char>, ValueView>, x: Video) -> bool {
        &&& field_ok::<String>(m, "file_id"@, x.file_id)
    }

    /// `e` is the error of the first field of the map `m` that cannot be read.
    pub open spec fn fields_error(m: Map<Seq<char>, ValueView>, e: WalleError) -> bool {
        if !field_accepts::<String>(m, "file_id"@) {
            field_fails::<String>(m, "file_id"@, e)
        } else {
            false
        }
    }

    /// The map `m` after the fields are read from it: every field read
    /// up to and including the first that fails is removed.
    pub open spec fn fields_rest(m: Map<Seq<char>, ValueView>) -> Map<Seq<char>, ValueView> {
        if !field_accepts::<String>(m, "file_id"@) {
            m.remove("file_id"@)
        } else {
            m.remove("file_id"@)
        }
    }

    /// Reads a `Video` from the fields of `map`, removing each field read.
    pub fn from_map(map: &mut ValueMap) -> (r: WalleResult<Video>)
        ensures
            final(map)@ == Video::fields_rest(old(map)@),
            match r {
                Ok(x) => Video::fields_accept(old(map)@) && Video::fields_match(old(map)@, x),
                Err(e) => !Video::fields_accept(old(map)@) && Video::fields_error(old(map)@, e),
            },
    {
        proof { reveal_strlit("file_id"); }
        let ghost m0 = map@;
        let file_id = match map.remove_downcast::<String>("file_id") {
            Ok(x) => x,
            Err(e) => return Err(e),
        };
        Ok(Video { file_id })
    }

    /// The fields of the `Video` as a map.
    pub fn into_map(self) -> (r: ValueMap)
        ensures
            r@ == self.pushed(Map::empty()),
    {
        let mut m = ValueMap::new();
        self.push_to(&mut m);
        m
    }

    /// The `Video` as a map value.
    pub fn into_value(self) -> (r: Value)
        ensures
            r@ == ValueView::Dict(self.pushed(Map::empty())),
    {
        dict_value(self.into_map())
    }
}

impl PushToValueMap for Video {
    open spec fn pushed(self, m: Map<Seq<char>, ValueView>) -> Map<Seq<char>, ValueView> {
        m.insert("file_id"@, ValueView::Str(self.file_id@))
    }

    fn push_to(self, map: &mut ValueMap) {
        proof { reveal_strlit("file_id"); }
        let _ = map.insert("file_id".to_owned(), Value::Str(self.file_id));
    }
}

impl TryFromValue for Video {
    open spec fn accepts(v: ValueView) -> bool {
        v matches ValueView::Dict(m) && Video::fields_accept(m)
    }

    open spec fn converted(v: ValueView, r: Video) -> bool {
        v matches ValueView::Dict(m) && Video::fields_match(m, r)
    }

    open spec fn rejected(v: ValueView, e: WalleError) -> bool {
        match v {
            ValueView::Dict(m) => Video::fields_error(m, e),
            _ => declare_mismatch_value(e, "Map Value"@, v),
        }
    }

    open spec fn spec_target_name() -> Seq<char> {
        "walle_core::segment::Video"@
    }

    fn target_name() -> (r: String) {
        proof { reveal_strlit("walle_core::segment::Video"); }
        "walle_core::segment::Video".to_owned()
    }

    fn try_from_value(v: Value) -> (r: WalleResult<Video>) {
        proof { reveal_strlit("Map Value"); }
        match v {
            Value::Dict(m) => {
                proof { lemma_dict_view(m); }
                let mut m = m;
                Video::from_map(&mut m)
            },
            other => Err(WalleError::DeclareNotMatch("Map Value".to_owned(), other.debug_text())),
        }
    }
}

impl ToMsgSegment for Video {
    open spec fn spec_ty() -> Seq<char> {
        "video"@
    }

    fn ty(&self) -> (r: &'static str) {
        proof { reveal_strlit("video"); }
        "video"
    }
}

impl TryFromMsgSegment for Video {
    open spec fn seg_accepts(s: SegmentView) -> bool {
        s.0 == "video"@ && Video::fields_accept(s.1)
    }

    open spec fn seg_converted(s: SegmentView, x: Video) -> bool {
        Video::fields_match(s.1, x)
    }

    open spec fn seg_rejected(s: SegmentView, e: WalleError) -> bool {
        if s.0 != "video"@ {
            declare_mismatch(e, "video"@, s.0)
        } else {
            Video::fields_error(s.1, e)
        }
    }

    open spec fn seg_rest(s: SegmentView) -> Map<Seq<char>, ValueView> {
        if s.0 != "video"@ {
            s.1
        } else {
            Video::fields_rest(s.1)
        }
    }

    fn try_from_msg_segment_mut(segment: &mut MsgSegment) -> (r: WalleResult<Video>) {
        proof { reveal_strlit("video"); }
        if !crate::text::str_eq(segment.ty.as_str(), "video") {
            assert(segment@.1 == old(segment)@.1);
            assert(Self::seg_rest(old(segment)@) == old(segment)@.1);
            return Err(WalleError::DeclareNotMatch("video".to_owned(), segment.ty.clone()));
        }
        assert(Self::seg_rest(old(segment)@) == Video::fields_rest(old(segment).data@));
        Video::from_map(&mut segment.data)
    }
}

/// A file segment.
#[derive(Debug, Clone, PartialEq)]
pub struct File {
    pub file_id: String,
}

impl File {
    /// Every field of a `File` can be read from the map `m`.
    pub open spec fn fields_accept(m: Map<Seq<char>, ValueView>) -> bool {
        &&& field_accepts::<String>(m, "file_id"@)
    }

    /// `x` holds what the fields of the map `m` read as.
    pub open spec fn fields_match(m: Map<Seq<char>, ValueView>, x: File) -> bool {
        &&& field_ok::<String>(m, "file_id"@, x.file_id)
    }

    /// `e` is the error of the first field of the map `m` that cannot be read.
    pub open spec fn fields_error(m: Map<Seq<char>, ValueView>, e: WalleError) -> bool {
        if !field_accepts::<String>(m, "file_id"@) {
            field_fails::<String>(m, "file_id"@, e)
        } else {
            false
        }
    }

    /// The map `m` after the fields are read from it: every field read
    /// up to and including the first that fails is removed.
    pub open spec fn fields_rest(m: Map<Seq<char>, ValueView>) -> Map<Seq<char>, ValueView> {
        if !field_accepts::<String>(m, "file_id"@) {
            m.remove("file_id"@)
        } else {
            m.remove("file_id"@)
        }
    }

    /// Reads a `File` from the fields of `map`, removing each field read.
    pub fn from_map(map: &mut ValueMap) -> (r: WalleResult<File>)
        ensures
            final(map)@ == File::fields_rest(old(map)@),
            match r {
                Ok(x) => File::fields_accept(old(map)@) && File::fields_match(old(map)@, x),
                Err(e) => !File::fields_accept(old(map)@) && File::fields_error(old(map)@, e),
            },
    {
        proof { reveal_strlit("file_id"); }
        let ghost m0 = map@;
        let file_id = match map.remove_downcast::<String>("file_id") {
            Ok(x) => x,
            Err(e) => return Err(e),
        };
        Ok(File { file_id })
    }

    /// The fields of the `File` as a map.
    pub fn into_map(self) -> (r: ValueMap)
        ensures
            r@ == self.pushed(Map::empty()),
    {
        let mut m = ValueMap::new();
        self.push_to(&mut m);
        m
    }

    /// The `File` as a map value.
    pub fn into_value(self) -> (r: Value)
        ensures
            r@ == ValueView::Dict(self.pushed(Map::empty())),
    {
        dict_value(self.into_map())
    }
}

impl PushToValueMap for File {
    open spec fn pushed(self, m: Map<Seq<char>, ValueView>) -> Map<Seq<char>, ValueView> {
        m.insert("file_id"@, ValueView::Str(self.file_id@))
    }

    fn push_to(self, map: &mut ValueMap) {
        proof { reveal_strlit("file_id"); }
        let _ = map.insert("file_id".to_owned(), Value::Str(self.file_id));
    }
}

impl TryFromValue for File {
    open spec fn accepts(v: ValueView) -> bool {
        v matches ValueView::Dict(m) && File::fields_accept(m)
    }

    open spec fn converted(v: ValueView, r: File) -> bool {
        v matches ValueView::Dict(m) && File::fields_match(m, r)
    }

    open spec fn rejected(v: ValueView, e: WalleError) -> bool {
        match v {
            ValueView::Dict(m) => File::fields_error(m, e),
            _ => declare_mismatch_value(e, "Map Value"@, v),
        }
    }

    open spec fn spec_target_name() -> Seq<char> {
        "walle_core::segment::File"@
    }

    fn target_name() -> (r: String) {
        proof { reveal_strlit("walle_core::segment::File"); }
        "walle_core::segment::File".to_owned()
    }

    fn try_from_value(v: Value) -> (r: WalleResult<File>) {
        proof { reveal_strlit("Map Value"); }
        match v {
            Value::Dict(m) => {
                proof { lemma_dict_view(m); }
                let mut m = m;
                File::from_map(&mut m)
            },
            other => Err(WalleError::DeclareNotMatch("Map Value".to_owned(), other.debug_text())),
        }
    }
}

impl ToMsgSegment for File {
    open spec fn spec_ty() -> Seq<char> {
        "file"@
    }

    fn ty(&self) -> (r: &'static str) {
        proof { reveal_strlit("file"); }
        "file"
    }
}

impl TryFromMsgSegment for File {
    open spec fn seg_accepts(s: SegmentView) -> bool {
        s.0 == "file"@ && File::fields_accept(s.1)
    }

    open spec fn seg_converted(s: SegmentView, x: File) -> bool {
        File::fields_match(s.1, x)
    }

    open spec fn seg_rejected(s: SegmentView, e: WalleError) -> bool {
        if s.0 != "file"@ {
            declare_mismatch(e, "file"@, s.0)
        } else {
            File::fields_error(s.1, e)
        }
    }

    open spec fn seg_rest(s: SegmentView) -> Map<Seq<char>, ValueView> {
        if s.0 != "file"@ {
            s.1
        } else {
            File::fields_rest(s.1)
        }
    }

    fn try_from_msg_segment_mut(segment: &mut MsgSegment) -> (r: WalleResult<File>) {
        proof { reveal_strlit("file"); }
        if !crate::text::str_eq(segment.ty.as_str(), "file") {
            assert(segment@.1 == old(segment)@.1);
            assert(Self::seg_rest(old(segment)@) == old(segment)@.1);
            return Err(WalleError::DeclareNotMatch("file".to_owned(), segment.ty.clone()));
        }
        assert(Self::seg_rest(old(segment)@) == File::fields_rest(old(segment).data@));
        File::from_map(&mut segment.data)
    }
}

/// A location segment; the coordinates are 64-bit floats held as bits.
#[derive(Debug, Clone, PartialEq)]
pub struct Location {
    pub latitude: Float64,
    pub longitude: Float64,
    pub title: String,
    pub content: String,
}

impl Location {
    /// Every field of a `Location` can be read from the map `m`.
    pub open spec fn fields_accept(m: Map<Seq<char>, ValueView>) -> bool {
        &&& field_accepts::<Float64>(m, "latitude"@)
        &&& field_accepts::<Float64>(m, "longitude"@)
        &&& field_accepts::<String>(m, "title"@)
        &&& field_accepts::<String>(m, "content"@)
    }

    /// `x` holds what the fields of the map `m` read as.
    pub open spec fn fields_match(m: Map<Seq<char>, ValueView>, x: Location) -> bool {
        &&& field_ok::<Float64>(m, "latitude"@, x.latitude)
        &&& field_ok::<Float64>(m, "longitude"@, x.longitude)
        &&& field_ok::<String>(m, "title"@, x.title)
        &&& field_ok::<String>(m, "content"@, x.content)
    }

    /// `e` is the error of the first field of the map `m` that cannot be read.
    pub open spec fn fields_error(m: Map<Seq<char>, ValueView>, e: WalleError) -> bool {
        if !field_accepts::<Float64>(m, "latitude"@) {
            field_fails::<Float64>(m, "latitude"@, e)
        } else if !field_accepts::<Float64>(m, "longitude"@) {
            field_fails::<Float64>(m, "longitude"@, e)
        } else if !field_accepts::<String>(m, "title"@) {
            field_fails::<String>(m, "title"@, e)
        } else if !field_accepts::<String>(m, "content"@) {
            field_fails::<String>(m, "content"@, e)
        } else {
            false
        }
    }

    /// The map `m` after the fields are read from it: every field read
    /// up to and including the first that fails is removed.
    pub open spec fn fields_rest(m: Map<Seq<char>, ValueView>) -> Map<Seq<char>, ValueView> {
        if !field_accepts::<Float64>(m, "latitude"@) {
            m.remove("latitude"@)
        } else if !field_accepts::<Float64>(m, "longitude"@) {
            m.remove("latitude"@).remove("longitude"@)
        } else if !field_accepts::<String>(m, "title"@) {
            m.remove("latitude"@).remove("longitude"@).remove("title"@)
        } else if !field_accepts::<String>(m, "content"@) {
            m.remove("latitude"@).remove("longitude"@).remove("title"@).remove("content"@)
        } else {
            m.remove("latitude"@).remove("longitude"@).remove("title"@).remove("content"@)
        }
    }

    /// Reads a `Location` from the fields of `map`, removing each field read.
    pub fn from_map(map: &mut ValueMap) -> (r: WalleResult<Location>)
        ensures
            final(map)@ == Location::fields_rest(old(map)@),
            match r {
                Ok(x) => Location::fields_accept(old(map)@) && Location::fields_match(old(map)@, x),
                Err(e) => !Location::fields_accept(old(map)@) && Location::fields_error(old(map)@, e),
            },
    {
        proof { reveal_strlit("latitude"); reveal_strlit("longitude"); reveal_strlit("title"); reveal_strlit("content"); }
        assert("latitude"@ != "longitude"@) by { assert("latitude"@.len() == 8); assert("longitude"@.len() == 9); }
        assert("latitude"@ != "title"@) by { assert("latitude"@.len() == 8); assert("title"@.len() == 5); }
        assert("latitude"@ != "content"@) by { assert("latitude"@.len() == 8); assert("content"@.len() == 7); }
        assert("longitude"@ != "title"@) by { assert("longitude"@.len() == 9); assert("title"@.len() == 5); }
        assert("longitude"@ != "content"@) by { assert("longitude"@.len() == 9); assert("content"@.len() == 7); }
        assert("title"@ != "content"@) by { assert("title"@.len() == 5); assert("content"@.len() == 7); }
        let ghost m0 = map@;
        let latitude = match map.remove_downcast::<Float64>("latitude") {
            Ok(x) => x,
            Err(e) => return Err(e),
        };
        let longitude = match map.remove_downcast::<Float64>("longitude") {
            Ok(x) => x,
            Err(e) => return Err(e),
        };
        let title = match map.remove_downcast::<String>("title") {
            Ok(x) => x,
            Err(e) => return Err(e),
        };
        let content = match map.remove_downcast::<String>("content") {
            Ok(x) => x,
            Err(e) => return Err(e),
        };
        Ok(Location { latitude, longitude, title, content })
    }

    /// The fields of the `Location` as a map.
    pub fn into_map(self) -> (r: ValueMap)
        ensures
            r@ == self.pushed(Map::empty()),
    {
        let mut m = ValueMap::new();
        self.push_to(&mut m);
        m
    }

    /// The `Location` as a map value.
    pub fn into_value(self) -> (r: Value)
        ensures
            r@ == ValueView::Dict(self.pushed(Map::empty())),
    {
        dict_value(self.into_map())
    }
}

impl PushToValueMap for Location {
    open spec fn pushed(self, m: Map<Seq<char>, ValueView>) -> Map<Seq<char>, ValueView> {
        m.insert("latitude"@, ValueView::F64(self.latitude.bits)).insert("longitude"@, ValueView::F64(self.longitude.bits)).insert("title"@, ValueView::Str(self.title@)).insert("content"@, ValueView::Str(self.content@))
    }

    fn push_to(self, map: &mut ValueMap) {
        proof { reveal_strlit("latitude"); reveal_strlit("longitude"); reveal_strlit("title"); reveal_strlit("content"); }
        let _ = map.insert("latitude".to_owned(), Value::F64(self.latitude));
        let _ = map.insert("longitude".to_owned(), Value::F64(self.longitude));
        let _ = map.insert("title".to_owned(), Value::Str(self.title));
        let _ = map.insert("content".to_owned(), Value::Str(self.content));
    }
}

impl TryFromValue for Location {
    open spec fn accepts(v: ValueView) -> bool {
        v matches ValueView::Dict(m) && Location::fields_accept(m)
    }

    open spec fn converted(v: ValueView, r: Location) -> bool {
        v matches ValueView::Dict(m) && Location::fields_match(m, r)
    }

    open spec fn rejected(v: ValueView, e: WalleError) -> bool {
        match v {
            ValueView::Dict(m) => Location::fields_error(m, e),
            _ => declare_mismatch_value(e, "Map Value"@, v),
        }
    }

    open spec fn spec_target_name() -> Seq<char> {
        "walle_core::segment::Location"@
    }

    fn target_name() -> (r: String) {
        proof { reveal_strlit("walle_core::segment::Location"); }
        "walle_core::segment::Location".to_owned()
    }

    fn try_from_value(v: Value) -> (r: WalleResult<Location>) {
        proof { reveal_strlit("Map Value"); }
        match v {
            Value::Dict(m) => {
                proof { lemma_dict_view(m); }
                let mut m = m;
                Location::from_map(&mut m)
            },
            other => Err(WalleError::DeclareNotMatch("Map Value".to_owned(), other.debug_text())),
        }
    }
}

impl ToMsgSegment for Location {
    open spec fn spec_ty() -> Seq<char> {
        "location"@
    }

    fn ty(&self) -> (r: &'static str) {
        proof { reveal_strlit("location"); }
        "location"
    }
}

impl TryFromMsgSegment for Location {
    open spec fn seg_accepts(s: SegmentView) -> bool {
        s.0 == "location"@ && Location::fields_accept(s.1)
    }

    open spec fn seg_converted(s: SegmentView, x: Location) -> bool {
        Location::fields_match(s.1, x)
    }

    open spec fn seg_rejected(s: SegmentView, e: WalleError) -> bool {
        if s.0 != "location"@ {
            declare_mismatch(e, "location"@, s.0)
        } else {
            Location::fields_error(s.1, e)
        }
    }

    open spec fn seg_rest(s: SegmentView) -> Map<Seq<char>, ValueView> {
        if s.0 != "location"@ {
            s.1
        } else {
            Location::fields_rest(s.1)
        }
    }

    fn try_from_msg_segment_mut(segment: &mut MsgSegment) -> (r: WalleResult<Location>) {
        proof { reveal_strlit("location"); }
        if !crate::text::str_eq(segment.ty.as_str(), "location") {
            assert(segment@.1 == old(segment)@.1);
            assert(Self::seg_rest(old(segment)@) == old(segment)@.1);
            return Err(WalleError::DeclareNotMatch("location".to_owned(), segment.ty.clone()));
        }
        assert(Self::seg_rest(old(segment)@) == Location::fields_rest(old(segment).data@));
        Location::from_map(&mut segment.data)
    }
}

/// A segment that replies to a message.
#[derive(Debug, Clone, PartialEq)]
pub struct Reply {
    pub message_id: String,
    pub user_id: String,
}

impl Reply {
    /// Every field of a `Reply` can be read from the map `m`.
    pub open spec fn fields_accept(m: Map<Seq<char>, ValueView>) -> bool {
        &&& field_accepts::<String>(m, "message_id"@)
        &&& field_accepts::<String>(m, "user_id"@)
    }

    /// `x` holds what the fields of the map `m` read as.
    pub open spec fn fields_match(m: Map<Seq<char>, ValueView>, x: Reply) -> bool {
        &&& field_ok::<String>(m, "message_id"@, x.message_id)
        &&& field_ok::<String>(m, "user_id"@, x.user_id)
    }

    /// `e` is the error of the first field of the map `m` that cannot be read.
    pub open spec fn fields_error(m: Map<Seq<char>, ValueView>, e: WalleError) -> bool {
        if !field_accepts::<String>(m, "message_id"@) {
            field_fails::<String>(m, "message_id"@, e)
        } else if !field_accepts::<String>(m, "user_id"@) {
            field_fails::<String>(m, "user_id"@, e)
        } else {
            false
        }
    }

    /// The map `m` after the fields are read from it: every field read
    /// up to and including the first that fails is removed.
    pub open spec fn fields_rest(m: Map<Seq<char>, ValueView>) -> Map<Seq<char>, ValueView> {
        if !field_accepts::<String>(m, "message_id"@) {
            m.remove("message_id"@)
        } else if !field_accepts::<String>(m, "user_id"@) {
            m.remove("message_id"@).remove("user_id"@)
        } else {
            m.remove("message_id"@).remove("user_id"@)
        }
    }

    /// Reads a `Reply` from the fields of `map`, removing each field read.
    pub fn from_map(map: &mut ValueMap) -> (r: WalleResult<Reply>)
        ensures
            final(map)@ == Reply::fields_rest(old(map)@),
            match r {
                Ok(x) => Reply::fields_accept(old(map)@) && Reply::fields_match(old(map)@, x),
                Err(e) => !Reply::fields_accept(old(map)@) && Reply::fields_error(old(map)@, e),
            },
    {
        proof { reveal_strlit("message_id"); reveal_strlit("user_id"); }
        assert("message_id"@ != "user_id"@) by { assert("message_id"@.len() == 10); assert("user_id"@.len() == 7); }
        let ghost m0 = map@;
        let message_id = match map.remove_downcast::<String>("message_id") {
            Ok(x) => x,
            Err(e) => return Err(e),
        };
        let user_id = match map.remove_downcast::<String>("user_id") {
            Ok(x) => x,
            Err(e) => return Err(e),
        };
        Ok(Reply { message_id, user_id })
    }

    /// The fields of the `Reply` as a map.
    pub fn into_map(self) -> (r: ValueMap)
        ensures
            r@ == self.pushed(Map::empty()),
    {
        let mut m = ValueMap::new();
        self.push_to(&mut m);
        m
    }

    /// The `Reply` as a map value.
    pub fn into_value(self) -> (r: Value)
        ensures
            r@ == ValueView::Dict(self.pushed(Map::empty())),
    {
        dict_value(self.into_map())
    }
}

impl PushToValueMap for Reply {
    open spec fn pushed(self, m: Map<Seq<char>, ValueView>) -> Map<Seq<char>, ValueView> {
        m.insert("message_id"@, ValueView::Str(self.message_id@)).insert("user_id"@, ValueView::Str(self.user_id@))
    }

    fn push_to(self, map: &mut ValueMap) {
        proof { reveal_strlit("message_id"); reveal_strlit("user_id"); }
        let _ = map.insert("message_id".to_owned(), Value::Str(self.message_id));
        let _ = map.insert("user_id".to_owned(), Value::Str(self.user_id));
    }
}

impl TryFromValue for Reply {
    open spec fn accepts(v: ValueView) -> bool {
        v matches ValueView::Dict(m) && Reply::fields_accept(m)
    }

    open spec fn converted(v: ValueView, r: Reply) -> bool {
        v matches ValueView::Dict(m) && Reply::fields_match(m, r)
    }

    open spec fn rejected(v: ValueView, e: WalleError) -> bool {
        match v {
            ValueView::Dict(m) => Reply::fields_error(m, e),
            _ => declare_mismatch_value(e, "Map Value"@, v),
        }
    }

    open spec fn spec_target_name() -> Seq<char> {
        "walle_core::segment::Reply"@
    }

    fn target_name() -> (r: String) {
        proof { reveal_strlit("walle_core::segment::Reply"); }
        "walle_core::segment::Reply".to_owned()
    }

    fn try_from_value(v: Value) -> (r: WalleResult<Reply>) {
        proof { reveal_strlit("Map Value"); }
        match v {
            Value::Dict(m) => {
                proof { lemma_dict_view(m); }
                let mut m = m;
                Reply::from_map(&mut m)
            },
            other => Err(WalleError::DeclareNotMatch("Map Value".to_owned(), other.debug_text())),
        }
    }
}

impl ToMsgSegment for Reply {
    open spec fn spec_ty() -> Seq<char> {
        "reply"@
    }

    fn ty(&self) -> (r: &'static str) {
        proof { reveal_strlit("reply"); }
        "reply"
    }
}

impl TryFromMsgSegment for Reply {
    open spec fn seg_accepts(s: SegmentView) -> bool {
        s.0 == "reply"@ && Reply::fields_accept(s.1)
    }

    open spec fn seg_converted(s: SegmentView, x: Reply) -> bool {
        Reply::fields_match(s.1, x)
    }

    open spec fn seg_rejected(s: SegmentView, e: WalleError) -> bool {
        if s.0 != "reply"@ {
            declare_mismatch(e, "reply"@, s.0)
        } else {
            Reply::fields_error(s.1, e)
        }
    }

    open spec fn seg_rest(s: SegmentView) -> Map<Seq<char>, ValueView> {
        if s.0 != "reply"@ {
            s.1
        } else {
            Reply::fields_rest(s.1)
        }
    }

    fn try_from_msg_segment_mut(segment: &mut MsgSegment) -> (r: WalleResult<Reply>) {
        proof { reveal_strlit("reply"); }
        if !crate::text::str_eq(segment.ty.as_str(), "reply") {
            assert(segment@.1 == old(segment)@.1);
            assert(Self::seg_rest(old(segment)@) == old(segment)@.1);
            return Err(WalleError::DeclareNotMatch("reply".to_owned(), segment.ty.clone()));
        }
        assert(Self::seg_rest(old(segment)@) == Reply::fields_rest(old(segment).data@));
        Reply::from_map(&mut segment.data)
    }
}


/// Reading a `Text` back from the segment it makes gives it back.
pub proof fn law_text_segment_roundtrip(x: Text)
    ensures
        Text::seg_accepts((Text::spec_ty(), x.pushed(Map::empty()))),
        Text::seg_converted((Text::spec_ty(), x.pushed(Map::empty())), x),
{
    reveal_strlit("text");
}

/// Reading a `Mention` back from the segment it makes gives it back.
pub proof fn law_mention_segment_roundtrip(x: Mention)
    ensures
        Mention::seg_accepts((Mention::spec_ty(), x.pushed(Map::empty()))),
        Mention::seg_converted((Mention::spec_ty(), x.pushed(Map::empty())), x),
{
    reveal_strlit("user_id");
}

/// Reading a `MentionAll` back from the segment it makes gives it back.
pub proof fn law_mention_all_segment_roundtrip(x: MentionAll)
    ensures
        MentionAll::seg_accepts((MentionAll::spec_ty(), x.pushed(Map::empty()))),
        MentionAll::seg_converted((MentionAll::spec_ty(), x.pushed(Map::empty())), x),
{
}

/// Reading a `Image` back from the segment it makes gives it back.
pub proof fn law_image_segment_roundtrip(x: Image)
    ensures
        Image::seg_accepts((Image::spec_ty(), x.pushed(Map::empty()))),
        Image::seg_converted((Image::spec_ty(), x.pushed(Map::empty())), x),
{
    reveal_strlit("file_id");
}

/// Reading a `Voice` back from the segment it makes gives it back.
pub proof fn law_voice_segment_roundtrip(x: Voice)
    ensures
        Voice::seg_accepts((Voice::spec_ty(), x.pushed(Map::empty()))),
        Voice::seg_converted((Voice::spec_ty(), x.pushed(Map::empty())), x),
{
    reveal_strlit("file_id");
}

/// Reading a `Audio` back from the segment it makes gives it back.
pub proof fn law_audio_segment_roundtrip(x: Audio)
    ensures
        Audio::seg_accepts((Audio::spec_ty(), x.pushed(Map::empty()))),
        Audio::seg_converted((Audio::spec_ty(), x.pushed(Map::empty())), x),
{
    reveal_strlit("file_id");
}

/// Reading a `Video` back from the segment it makes gives it back.
pub proof fn law_video_segment_roundtrip(x: Video)
    ensures
        Video::seg_accepts((Video::spec_ty(), x.pushed(Map::empty()))),
        Video::seg_converted((Video::spec_ty(), x.pushed(Map::empty())), x),
{
    reveal_strlit("file_id");
}

/// Reading a `File` back from the segment it makes gives it back.
pub proof fn law_file_segment_roundtrip(x: File)
    ensures
        File::seg_accepts((File::spec_ty(), x.pushed(Map::empty()))),
        File::seg_converted((File::spec_ty(), x.pushed(Map::empty())), x),
{
    reveal_strlit("file_id");
}

/// Reading a `Location` back from the segment it makes gives it back.
pub proof fn law_location_segment_roundtrip(x: Location)
    ensures
        Location::seg_accepts((Location::spec_ty(), x.pushed(Map::empty()))),
        Location::seg_converted((Location::spec_ty(), x.pushed(Map::empty())), x),
{
    reveal_strlit("latitude"); reveal_strlit("longitude"); reveal_strlit("title"); reveal_strlit("content");
    assert("latitude"@ != "longitude"@) by { assert("latitude"@.len() == 8); assert("longitude"@.len() == 9); }
    assert("latitude"@ != "title"@) by { assert("latitude"@.len() == 8); assert("title"@.len() == 5); }
    assert("latitude"@ != "content"@) by { assert("latitude"@.len() == 8); assert("content"@.len() == 7); }
    assert("longitude"@ != "title"@) by { assert("longitude"@.len() == 9); assert("title"@.len() == 5); }
    assert("longitude"@ != "content"@) by { assert("longitude"@.len() == 9); assert("content"@.len() == 7); }
    assert("title"@ != "content"@) by { assert("title"@.len() == 5); assert("content"@.len() == 7); }
}

/// Reading a `Reply` back from the segment it makes gives it back.
pub proof fn law_reply_segment_roundtrip(x: Reply)
    ensures
        Reply::seg_accepts((Reply::spec_ty(), x.pushed(Map::empty()))),
        Reply::seg_converted((Reply::spec_ty(), x.pushed(Map::empty())), x),
{
    reveal_strlit("message_id"); reveal_strlit("user_id");
    assert("message_id"@ != "user_id"@) by { assert("message_id"@.len() == 10); assert("user_id"@.len() == 7); }
}



/// A segment read back from the value it makes is the same segment.
pub proof fn law_segment_value_roundtrip(s: SegmentView)
    ensures
        value_has_segment(ValueView::Dict(Map::<Seq<char>, ValueView>::empty().insert("type"@, ValueView::Str(s.0)).insert("data"@, ValueView::Dict(s.1)))),
        value_is_segment(ValueView::Dict(Map::<Seq<char>, ValueView>::empty().insert("type"@, ValueView::Str(s.0)).insert("data"@, ValueView::Dict(s.1))), s),
{
    reveal_strlit("type");
    reveal_strlit("data");
    assert("data"@ != "type"@) by {
        assert("data"@[0] == 'd');
        assert("type"@[0] == 't');
    }
}
} // verus!

verus! {

/// The segment type a borrowed view stands for, by its variant.
pub open spec fn ref_type_name(r: MsgSegmentRef) -> Seq<char> {
    match r {
        MsgSegmentRef::Text { .. } => "text"@,
        MsgSegmentRef::Mention { .. } => "mention"@,
        MsgSegmentRef::MentionAll { .. } => "mention_all"@,
        MsgSegmentRef::Image { .. } => "image"@,
        MsgSegmentRef::Voice { .. } => "voice"@,
        MsgSegmentRef::Audio { .. } => "audio"@,
        MsgSegmentRef::Video { .. } => "video"@,
        MsgSegmentRef::File { .. } => "file"@,
        MsgSegmentRef::Location { .. } => "location"@,
        MsgSegmentRef::Reply { .. } => "reply"@,
        MsgSegmentRef::Other { ty, .. } => ty@,
    }
}

/// The data a borrowed view carries along.
pub open spec fn ref_extra<'a>(r: MsgSegmentRef<'a>) -> &'a ValueMap {
    match r {
        MsgSegmentRef::Text { extra, .. } => extra,
        MsgSegmentRef::Mention { extra, .. } => extra,
        MsgSegmentRef::MentionAll { extra } => extra,
        MsgSegmentRef::Image { extra, .. } => extra,
        MsgSegmentRef::Voice { extra, .. } => extra,
        MsgSegmentRef::Audio { extra, .. } => extra,
        MsgSegmentRef::Video { extra, .. } => extra,
        MsgSegmentRef::File { extra, .. } => extra,
        MsgSegmentRef::Location { extra, .. } => extra,
        MsgSegmentRef::Reply { extra, .. } => extra,
        MsgSegmentRef::Other { extra, .. } => extra,
    }
}

/// The borrowed view of a segment is the variant named by the segment's
/// type, and it carries the segment's data: a `voice` segment borrows as
/// `Voice`, a segment of an unknown type as `Other` with that type.
pub proof fn law_segment_ref_is_its_type(ty: Seq<char>, m: Map<Seq<char>, ValueView>, r: MsgSegmentRef)
    requires
        ref_matches(ty, m, r),
    ensures
        ref_type_name(r) == ty,
        ref_extra(r)@ == m,
{
}

/// The segment type a mutable view stands for, by its variant; `None`
/// for a view that lends nothing.
pub open spec fn mut_type_name(r: MsgSegmentMut) -> Option<Seq<char>> {
    match r {
        MsgSegmentMut::Text { .. } => Some("text"@),
        MsgSegmentMut::Mention { .. } => Some("mention"@),
        MsgSegmentMut::Image { .. } => Some("image"@),
        MsgSegmentMut::Voice { .. } => Some("voice"@),
        MsgSegmentMut::Audio { .. } => Some("audio"@),
        MsgSegmentMut::Video { .. } => Some("video"@),
        MsgSegmentMut::File { .. } => Some("file"@),
        MsgSegmentMut::Other => None,
    }
}

/// The mutable view of a segment is the variant named by the segment's
/// type where that type lends a field, and lends nothing otherwise.
pub proof fn law_segment_mut_is_its_type(ty: Seq<char>, r: MsgSegmentMut)
    requires
        mut_variant_matches(ty, r),
    ensures
        mut_type_name(r) is Some ==> mut_type_name(r) == Some(ty),
        mut_field(ty) is Some <==> mut_type_name(r) is Some,
{
    reveal_strlit("text"); reveal_strlit("mention"); reveal_strlit("image");
    reveal_strlit("voice"); reveal_strlit("audio"); reveal_strlit("video");
    reveal_strlit("file");
}

} // verus!
