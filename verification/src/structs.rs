//! Plain data structures of the protocol.

use vstd::prelude::*;
use crate::assoc::KeyEq;
use crate::error::{WalleError, WalleResult};
use crate::text::push_str;
use crate::value::{
    OneBotBytes, PushToValueMap, TryFromValue, Value, ValueMap, ValueView, declare_mismatch, declare_mismatch_value,
    dict_value, field_accepts, field_fails, field_ok, lemma_dict_view, list_accepts,
    list_converted, list_from_value, list_rejected, opt_field_accepts, opt_field_fails,
    opt_field_ok, Float64,
};

verus! {

/// The identity of a bot: its platform and its user id.
#[derive(Debug, Clone, PartialEq, Eq, Hash, Default)]
pub struct Selft {
    pub platform: String,
    pub user_id: String,
}

impl View for Selft {
    type V = (Seq<char>, Seq<char>);

    open spec fn view(&self) -> (Seq<char>, Seq<char>) {
        (self.platform@, self.user_id@)
    }
}

impl KeyEq for Selft {
    fn key_eq(&self, other: &Self) -> (r: bool) {
        crate::text::str_eq(self.platform.as_str(), other.platform.as_str())
            && crate::text::str_eq(self.user_id.as_str(), other.user_id.as_str())
    }

    fn key_clone(&self) -> (r: Self) {
        Selft { platform: self.platform.clone(), user_id: self.user_id.clone() }
    }
}

impl Selft {
    /// A copy of the identity.
    pub fn duplicate(&self) -> (r: Selft)
        ensures
            r@ == self@,
    {
        self.key_clone()
    }
}

impl Selft {
    /// Every field of a `Selft` can be read from the map `m`.
    pub open spec fn fields_accept(m: Map<Seq<char>, ValueView>) -> bool {
        &&& field_accepts::<String>(m, "platform"@)
        &&& field_accepts::<String>(m, "user_id"@)
    }

    /// `x` holds what the fields of the map `m` read as.
    pub open spec fn fields_match(m: Map<Seq<char>, ValueView>, x: Selft) -> bool {
        &&& field_ok::<String>(m, "platform"@, x.platform)
        &&& field_ok::<String>(m, "user_id"@, x.user_id)
    }

    /// `e` is the error of the first field of the map `m` that cannot be read.
    pub open spec fn fields_error(m: Map<Seq<char>, ValueView>, e: WalleError) -> bool {
        if !field_accepts::<String>(m, "platform"@) {
            field_fails::<String>(m, "platform"@, e)
        } else if !field_accepts::<String>(m, "user_id"@) {
            field_fails::<String>(m, "user_id"@, e)
        } else {
            false
        }
    }

    /// The map `m` after the fields are read from it: every field read
    /// up to and including the first that fails is removed.
    pub open spec fn fields_rest(m: Map<Seq<char>, ValueView>) -> Map<Seq<char>, ValueView> {
        if !field_accepts::<String>(m, "platform"@) {
            m.remove("platform"@)
        } else if !field_accepts::<String>(m, "user_id"@) {
            m.remove("platform"@).remove("user_id"@)
        } else {
            m.remove("platform"@).remove("user_id"@)
        }
    }

    /// Reads a `Selft` from the fields of `map`, removing each field read.
    pub fn from_map(map: &mut ValueMap) -> (r: WalleResult<Selft>)
        ensures
            final(map)@ == Selft::fields_rest(old(map)@),
            match r {
                Ok(x) => Selft::fields_accept(old(map)@) && Selft::fields_match(old(map)@, x),
                Err(e) => !Selft::fields_accept(old(map)@) && Selft::fields_error(old(map)@, e),
            },
    {
        proof { reveal_strlit("platform"); reveal_strlit("user_id"); }
        assert("platform"@ != "user_id"@) by { assert("platform"@.len() == 8); assert("user_id"@.len() == 7); }
        let ghost m0 = map@;
        let platform = match map.remove_downcast::<String>("platform") {
            Ok(x) => x,
            Err(e) => return Err(e),
        };
        let user_id = match map.remove_downcast::<String>("user_id") {
            Ok(x) => x,
            Err(e) => return Err(e),
        };
        Ok(Selft { platform, user_id })
    }

    /// The fields of the `Selft` as a map.
    pub fn into_map(self) -> (r: ValueMap)
        ensures
            r@ == self.pushed(Map::empty()),
    {
        let mut m = ValueMap::new();
        self.push_to(&mut m);
        m
    }

    /// The `Selft` as a map value.
    pub fn into_value(self) -> (r: Value)
        ensures
            r@ == ValueView::Dict(self.pushed(Map::empty())),
    {
        dict_value(self.into_map())
    }
}

impl PushToValueMap for Selft {
    open spec fn pushed(self, m: Map<Seq<char>, ValueView>) -> Map<Seq<char>, ValueView> {
        m.insert("platform"@, ValueView::Str(self.platform@)).insert("user_id"@, ValueView::Str(self.user_id@))
    }

    fn push_to(self, map: &mut ValueMap) {
        proof { reveal_strlit("platform"); reveal_strlit("user_id"); }
        let _ = map.insert("platform".to_owned(), Value::Str(self.platform));
        let _ = map.insert("user_id".to_owned(), Value::Str(self.user_id));
    }
}

impl TryFromValue for Selft {
    open spec fn accepts(v: ValueView) -> bool {
        v matches ValueView::Dict(m) && Selft::fields_accept(m)
    }

    open spec fn converted(v: ValueView, r: Selft) -> bool {
        v matches ValueView::Dict(m) && Selft::fields_match(m, r)
    }

    open spec fn rejected(v: ValueView, e: WalleError) -> bool {
        match v {
            ValueView::Dict(m) => Selft::fields_error(m, e),
            _ => declare_mismatch_value(e, "Map Value"@, v),
        }
    }

    open spec fn spec_target_name() -> Seq<char> {
        "walle_core::structs::Selft"@
    }

    fn target_name() -> (r: String) {
        proof { reveal_strlit("walle_core::structs::Selft"); }
        "walle_core::structs::Selft".to_owned()
    }

    fn try_from_value(v: Value) -> (r: WalleResult<Selft>) {
        proof { reveal_strlit("Map Value"); }
        match v {
            Value::Dict(m) => {
                proof { lemma_dict_view(m); }
                let mut m = m;
                Selft::from_map(&mut m)
            },
            other => Err(WalleError::DeclareNotMatch("Map Value".to_owned(), other.debug_text())),
        }
    }
}

/// A bot and whether it is online.
#[derive(Debug, Clone, PartialEq)]
pub struct Bot {
    pub selft: Selft,
    pub online: bool,
}

impl Bot {
    /// Every field of a `Bot` can be read from the map `m`.
    pub open spec fn fields_accept(m: Map<Seq<char>, ValueView>) -> bool {
        &&& field_accepts::<Selft>(m, "self"@)
        &&& field_accepts::<bool>(m, "online"@)
    }

    /// `x` holds what the fields of the map `m` read as.
    pub open spec fn fields_match(m: Map<Seq<char>, ValueView>, x: Bot) -> bool {
        &&& field_ok::<Selft>(m, "self"@, x.selft)
        &&& field_ok::<bool>(m, "online"@, x.online)
    }

    /// `e` is the error of the first field of the map `m` that cannot be read.
    pub open spec fn fields_error(m: Map<Seq<char>, ValueView>, e: WalleError) -> bool {
        if !field_accepts::<Selft>(m, "self"@) {
            field_fails::<Selft>(m, "self"@, e)
        } else if !field_accepts::<bool>(m, "online"@) {
            field_fails::<bool>(m, "online"@, e)
        } else {
            false
        }
    }

    /// The map `m` after the fields are read from it: every field read
    /// up to and including the first that fails is removed.
    pub open spec fn fields_rest(m: Map<Seq<char>, ValueView>) -> Map<Seq<char>, ValueView> {
        if !field_accepts::<Selft>(m, "self"@) {
            m.remove("self"@)
        } else if !field_accepts::<bool>(m, "online"@) {
            m.remove("self"@).remove("online"@)
        } else {
            m.remove("self"@).remove("online"@)
        }
    }

    /// Reads a `Bot` from the fields of `map`, removing each field read.
    pub fn from_map(map: &mut ValueMap) -> (r: WalleResult<Bot>)
        ensures
            final(map)@ == Bot::fields_rest(old(map)@),
            match r {
                Ok(x) => Bot::fields_accept(old(map)@) && Bot::fields_match(old(map)@, x),
                Err(e) => !Bot::fields_accept(old(map)@) && Bot::fields_error(old(map)@, e),
            },
    {
        proof { reveal_strlit("self"); reveal_strlit("online"); }
        assert("self"@ != "online"@) by { assert("self"@.len() == 4); assert("online"@.len() == 6); }
        let ghost m0 = map@;
        let selft = match map.remove_downcast::<Selft>("self") {
            Ok(x) => x,
            Err(e) => return Err(e),
        };
        let online = match map.remove_downcast::<bool>("online") {
            Ok(x) => x,
            Err(e) => return Err(e),
        };
        Ok(Bot { selft, online })
    }

    /// The fields of the `Bot` as a map.
    pub fn into_map(self) -> (r: ValueMap)
        ensures
            r@ == self.pushed(Map::empty()),
    {
        let mut m = ValueMap::new();
        self.push_to(&mut m);
        m
    }

    /// The `Bot` as a map value.
    pub fn into_value(self) -> (r: Value)
        ensures
            r@ == ValueView::Dict(self.pushed(Map::empty())),
    {
        dict_value(self.into_map())
    }
}

impl PushToValueMap for Bot {
    open spec fn pushed(self, m: Map<Seq<char>, ValueView>) -> Map<Seq<char>, ValueView> {
        m.insert("self"@, ValueView::Dict(self.selft.pushed(Map::empty()))).insert("online"@, ValueView::Bool(self.online))
    }

    fn push_to(self, map: &mut ValueMap) {
        proof { reveal_strlit("self"); reveal_strlit("online"); }
        let _ = map.insert("self".to_owned(), self.selft.into_value());
        let _ = map.insert("online".to_owned(), Value::Bool(self.online));
    }
}

impl TryFromValue for Bot {
    open spec fn accepts(v: ValueView) -> bool {
        v matches ValueView::Dict(m) && Bot::fields_accept(m)
    }

    open spec fn converted(v: ValueView, r: Bot) -> bool {
        v matches ValueView::Dict(m) && Bot::fields_match(m, r)
    }

    open spec fn rejected(v: ValueView, e: WalleError) -> bool {
        match v {
            ValueView::Dict(m) => Bot::fields_error(m, e),
            _ => declare_mismatch_value(e, "Map Value"@, v),
        }
    }

    open spec fn spec_target_name() -> Seq<char> {
        "walle_core::structs::Bot"@
    }

    fn target_name() -> (r: String) {
        proof { reveal_strlit("walle_core::structs::Bot"); }
        "walle_core::structs::Bot".to_owned()
    }

    fn try_from_value(v: Value) -> (r: WalleResult<Bot>) {
        proof { reveal_strlit("Map Value"); }
        match v {
            Value::Dict(m) => {
                proof { lemma_dict_view(m); }
                let mut m = m;
                Bot::from_map(&mut m)
            },
            other => Err(WalleError::DeclareNotMatch("Map Value".to_owned(), other.debug_text())),
        }
    }
}

/// The status of an implementation and its bots.
#[derive(Debug, Clone, PartialEq)]
pub struct Status {
    pub good: bool,
    pub bots: Vec<Bot>,
}

impl Status {
    /// Every field of a `Status` can be read from the map `m`.
    pub open spec fn fields_accept(m: Map<Seq<char>, ValueView>) -> bool {
        &&& field_accepts::<bool>(m, "good"@)
        &&& field_accepts::<Vec<Bot>>(m, "bots"@)
    }

    /// `x` holds what the fields of the map `m` read as.
    pub open spec fn fields_match(m: Map<Seq<char>, ValueView>, x: Status) -> bool {
        &&& field_ok::<bool>(m, "good"@, x.good)
        &&& field_ok::<Vec<Bot>>(m, "bots"@, x.bots)
    }

    /// `e` is the error of the first field of the map `m` that cannot be read.
    pub open spec fn fields_error(m: Map<Seq<char>, ValueView>, e: WalleError) -> bool {
        if !field_accepts::<bool>(m, "good"@) {
            field_fails::<bool>(m, "good"@, e)
        } else if !field_accepts::<Vec<Bot>>(m, "bots"@) {
            field_fails::<Vec<Bot>>(m, "bots"@, e)
        } else {
            false
        }
    }

    /// The map `m` after the fields are read from it: every field read
    /// up to and including the first that fails is removed.
    pub open spec fn fields_rest(m: Map<Seq<char>, ValueView>) -> Map<Seq<char>, ValueView> {
        if !field_accepts::<bool>(m, "good"@) {
            m.remove("good"@)
        } else if !field_accepts::<Vec<Bot>>(m, "bots"@) {
            m.remove("good"@).remove("bots"@)
        } else {
            m.remove("good"@).remove("bots"@)
        }
    }

    /// Reads a `Status` from the fields of `map`, removing each field read.
    pub fn from_map(map: &mut ValueMap) -> (r: WalleResult<Status>)
        ensures
            final(map)@ == Status::fields_rest(old(map)@),
            match r {
                Ok(x) => Status::fields_accept(old(map)@) && Status::fields_match(old(map)@, x),
                Err(e) => !Status::fields_accept(old(map)@) && Status::fields_error(old(map)@, e),
            },
    {
        proof { reveal_strlit("good"); reveal_strlit("bots"); }
        assert("good"@ != "bots"@) by { assert("good"@[0] == 'g'); assert("bots"@[0] == 'b'); }
        let ghost m0 = map@;
        let good = match map.remove_downcast::<bool>("good") {
            Ok(x) => x,
            Err(e) => return Err(e),
        };
        let bots = match map.remove_downcast::<Vec<Bot>>("bots") {
            Ok(x) => x,
            Err(e) => return Err(e),
        };
        Ok(Status { good, bots })
    }

    /// The fields of the `Status` as a map.
    pub fn into_map(self) -> (r: ValueMap)
        ensures
            r@ == self.pushed(Map::empty()),
    {
        let mut m = ValueMap::new();
        self.push_to(&mut m);
        m
    }

    /// The `Status` as a map value.
    pub fn into_value(self) -> (r: Value)
        ensures
            r@ == ValueView::Dict(self.pushed(Map::empty())),
    {
        dict_value(self.into_map())
    }
}

impl PushToValueMap for Status {
    open spec fn pushed(self, m: Map<Seq<char>, ValueView>) -> Map<Seq<char>, ValueView> {
        m.insert("good"@, ValueView::Bool(self.good)).insert("bots"@, bots_view(self.bots@))
    }

    fn push_to(self, map: &mut ValueMap) {
        proof { reveal_strlit("good"); reveal_strlit("bots"); }
        let _ = map.insert("good".to_owned(), Value::Bool(self.good));
        let _ = map.insert("bots".to_owned(), bots_into_value(self.bots));
    }
}

impl TryFromValue for Status {
    open spec fn accepts(v: ValueView) -> bool {
        v matches ValueView::Dict(m) && Status::fields_accept(m)
    }

    open spec fn converted(v: ValueView, r: Status) -> bool {
        v matches ValueView::Dict(m) && Status::fields_match(m, r)
    }

    open spec fn rejected(v: ValueView, e: WalleError) -> bool {
        match v {
            ValueView::Dict(m) => Status::fields_error(m, e),
            _ => declare_mismatch_value(e, "Map Value"@, v),
        }
    }

    open spec fn spec_target_name() -> Seq<char> {
        "walle_core::structs::Status"@
    }

    fn target_name() -> (r: String) {
        proof { reveal_strlit("walle_core::structs::Status"); }
        "walle_core::structs::Status".to_owned()
    }

    fn try_from_value(v: Value) -> (r: WalleResult<Status>) {
        proof { reveal_strlit("Map Value"); }
        match v {
            Value::Dict(m) => {
                proof { lemma_dict_view(m); }
                let mut m = m;
                Status::from_map(&mut m)
            },
            other => Err(WalleError::DeclareNotMatch("Map Value".to_owned(), other.debug_text())),
        }
    }
}

/// The answer to a sent message; the time is a 64-bit float held as bits.
#[derive(Debug, Clone, PartialEq)]
pub struct SendMessageResp {
    pub message_id: String,
    pub time: Float64,
}

impl SendMessageResp {
    /// Every field of a `SendMessageResp` can be read from the map `m`.
    pub open spec fn fields_accept(m: Map<Seq<char>, ValueView>) -> bool {
        &&& field_accepts::<String>(m, "message_id"@)
        &&& field_accepts::<Float64>(m, "time"@)
    }

    /// `x` holds what the fields of the map `m` read as.
    pub open spec fn fields_match(m: Map<Seq<char>, ValueView>, x: SendMessageResp) -> bool {
        &&& field_ok::<String>(m, "message_id"@, x.message_id)
        &&& field_ok::<Float64>(m, "time"@, x.time)
    }

    /// `e` is the error of the first field of the map `m` that cannot be read.
    pub open spec fn fields_error(m: Map<Seq<char>, ValueView>, e: WalleError) -> bool {
        if !field_accepts::<String>(m, "message_id"@) {
            field_fails::<String>(m, "message_id"@, e)
        } else if !field_accepts::<Float64>(m, "time"@) {
            field_fails::<Float64>(m, "time"@, e)
        } else {
            false
        }
    }

    /// The map `m` after the fields are read from it: every field read
    /// up to and including the first that fails is removed.
    pub open spec fn fields_rest(m: Map<Seq<char>, ValueView>) -> Map<Seq<char>, ValueView> {
        if !field_accepts::<String>(m, "message_id"@) {
            m.remove("message_id"@)
        } else if !field_accepts::<Float64>(m, "time"@) {
            m.remove("message_id"@).remove("time"@)
        } else {
            m.remove("message_id"@).remove("time"@)
        }
    }

    /// Reads a `SendMessageResp` from the fields of `map`, removing each field read.
    pub fn from_map(map: &mut ValueMap) -> (r: WalleResult<SendMessageResp>)
        ensures
            final(map)@ == SendMessageResp::fields_rest(old(map)@),
            match r {
                Ok(x) => SendMessageResp::fields_accept(old(map)@) && SendMessageResp::fields_match(old(map)@, x),
                Err(e) => !SendMessageResp::fields_accept(old(map)@) && SendMessageResp::fields_error(old(map)@, e),
            },
    {
        proof { reveal_strlit("message_id"); reveal_strlit("time"); }
        assert("message_id"@ != "time"@) by { assert("message_id"@.len() == 10); assert("time"@.len() == 4); }
        let ghost m0 = map@;
        let message_id = match map.remove_downcast::<String>("message_id") {
            Ok(x) => x,
            Err(e) => return Err(e),
        };
        let time = match map.remove_downcast::<Float64>("time") {
            Ok(x) => x,
            Err(e) => return Err(e),
        };
        Ok(SendMessageResp { message_id, time })
    }

    /// The fields of the `SendMessageResp` as a map.
    pub fn into_map(self) -> (r: ValueMap)
        ensures
            r@ == self.pushed(Map::empty()),
    {
        let mut m = ValueMap::new();
        self.push_to(&mut m);
        m
    }

    /// The `SendMessageResp` as a map value.
    pub fn into_value(self) -> (r: Value)
        ensures
            r@ == ValueView::Dict(self.pushed(Map::empty())),
    {
        dict_value(self.into_map())
    }
}

impl PushToValueMap for SendMessageResp {
    open spec fn pushed(self, m: Map<Seq<char>, ValueView>) -> Map<Seq<char>, ValueView> {
        m.insert("message_id"@, ValueView::Str(self.message_id@)).insert("time"@, ValueView::F64(self.time.bits))
    }

    fn push_to(self, map: &mut ValueMap) {
        proof { reveal_strlit("message_id"); reveal_strlit("time"); }
        let _ = map.insert("message_id".to_owned(), Value::Str(self.message_id));
        let _ = map.insert("time".to_owned(), Value::F64(self.time));
    }
}

impl TryFromValue for SendMessageResp {
    open spec fn accepts(v: ValueView) -> bool {
        v matches ValueView::Dict(m) && SendMessageResp::fields_accept(m)
    }

    open spec fn converted(v: ValueView, r: SendMessageResp) -> bool {
        v matches ValueView::Dict(m) && SendMessageResp::fields_match(m, r)
    }

    open spec fn rejected(v: ValueView, e: WalleError) -> bool {
        match v {
            ValueView::Dict(m) => SendMessageResp::fields_error(m, e),
            _ => declare_mismatch_value(e, "Map Value"@, v),
        }
    }

    open spec fn spec_target_name() -> Seq<char> {
        "walle_core::structs::SendMessageResp"@
    }

    fn target_name() -> (r: String) {
        proof { reveal_strlit("walle_core::structs::SendMessageResp"); }
        "walle_core::structs::SendMessageResp".to_owned()
    }

    fn try_from_value(v: Value) -> (r: WalleResult<SendMessageResp>) {
        proof { reveal_strlit("Map Value"); }
        match v {
            Value::Dict(m) => {
                proof { lemma_dict_view(m); }
                let mut m = m;
                SendMessageResp::from_map(&mut m)
            },
            other => Err(WalleError::DeclareNotMatch("Map Value".to_owned(), other.debug_text())),
        }
    }
}

/// Information on a user.
#[derive(Debug, Clone, PartialEq)]
pub struct UserInfo {
    pub user_id: String,
    pub user_name: String,
    pub user_displayname: String,
    pub user_remark: String,
}

impl UserInfo {
    /// Every field of a `UserInfo` can be read from the map `m`.
    pub open spec fn fields_accept(m: Map<Seq<char>, ValueView>) -> bool {
        &&& field_accepts::<String>(m, "user_id"@)
        &&& field_accepts::<String>(m, "user_name"@)
        &&& field_accepts::<String>(m, "user_displayname"@)
        &&& field_accepts::<String>(m, "user_remark"@)
    }

    /// `x` holds what the fields of the map `m` read as.
    pub open spec fn fields_match(m: Map<Seq<char>, ValueView>, x: UserInfo) -> bool {
        &&& field_ok::<String>(m, "user_id"@, x.user_id)
        &&& field_ok::<String>(m, "user_name"@, x.user_name)
        &&& field_ok::<String>(m, "user_displayname"@, x.user_displayname)
        &&& field_ok::<String>(m, "user_remark"@, x.user_remark)
    }

    /// `e` is the error of the first field of the map `m` that cannot be read.
    pub open spec fn fields_error(m: Map<Seq<char>, ValueView>, e: WalleError) -> bool {
        if !field_accepts::<String>(m, "user_id"@) {
            field_fails::<String>(m, "user_id"@, e)
        } else if !field_accepts::<String>(m, "user_name"@) {
            field_fails::<String>(m, "user_name"@, e)
        } else if !field_accepts::<String>(m, "user_displayname"@) {
            field_fails::<String>(m, "user_displayname"@, e)
        } else if !field_accepts::<String>(m, "user_remark"@) {
            field_fails::<String>(m, "user_remark"@, e)
        } else {
            false
        }
    }

    /// The map `m` after the fields are read from it: every field read
    /// up to and including the first that fails is removed.
    pub open spec fn fields_rest(m: Map<Seq<char>, ValueView>) -> Map<Seq<char>, ValueView> {
        if !field_accepts::<String>(m, "user_id"@) {
            m.remove("user_id"@)
        } else if !field_accepts::<String>(m, "user_name"@) {
            m.remove("user_id"@).remove("user_name"@)
        } else if !field_accepts::<String>(m, "user_displayname"@) {
            m.remove("user_id"@).remove("user_name"@).remove("user_displayname"@)
        } else if !field_accepts::<String>(m, "user_remark"@) {
            m.remove("user_id"@).remove("user_name"@).remove("user_displayname"@).remove("user_remark"@)
        } else {
            m.remove("user_id"@).remove("user_name"@).remove("user_displayname"@).remove("user_remark"@)
        }
    }

    /// Reads a `UserInfo` from the fields of `map`, removing each field read.
    pub fn from_map(map: &mut ValueMap) -> (r: WalleResult<UserInfo>)
        ensures
            final(map)@ == UserInfo::fields_rest(old(map)@),
            match r {
                Ok(x) => UserInfo::fields_accept(old(map)@) && UserInfo::fields_match(old(map)@, x),
                Err(e) => !UserInfo::fields_accept(old(map)@) && UserInfo::fields_error(old(map)@, e),
            },
    {
        proof { reveal_strlit("user_id"); reveal_strlit("user_name"); reveal_strlit("user_displayname"); reveal_strlit("user_remark"); }
        assert("user_id"@ != "user_name"@) by { assert("user_id"@.len() == 7); assert("user_name"@.len() == 9); }
        assert("user_id"@ != "user_displayname"@) by { assert("user_id"@.len() == 7); assert("user_displayname"@.len() == 16); }
        assert("user_id"@ != "user_remark"@) by { assert("user_id"@.len() == 7); assert("user_remark"@.len() == 11); }
        assert("user_name"@ != "user_displayname"@) by { assert("user_name"@.len() == 9); assert("user_displayname"@.len() == 16); }
        assert("user_name"@ != "user_remark"@) by { assert("user_name"@.len() == 9); assert("user_remark"@.len() == 11); }
        assert("user_displayname"@ != "user_remark"@) by { assert("user_displayname"@.len() == 16); assert("user_remark"@.len() == 11); }
        let ghost m0 = map@;
        let user_id = match map.remove_downcast::<String>("user_id") {
            Ok(x) => x,
            Err(e) => return Err(e),
        };
        let user_name = match map.remove_downcast::<String>("user_name") {
            Ok(x) => x,
            Err(e) => return Err(e),
        };
        let user_displayname = match map.remove_downcast::<String>("user_displayname") {
            Ok(x) => x,
            Err(e) => return Err(e),
        };
        let user_remark = match map.remove_downcast::<String>("user_remark") {
            Ok(x) => x,
            Err(e) => return Err(e),
        };
        Ok(UserInfo { user_id, user_name, user_displayname, user_remark })
    }

    /// The fields of the `UserInfo` as a map.
    pub fn into_map(self) -> (r: ValueMap)
        ensures
            r@ == self.pushed(Map::empty()),
    {
        let mut m = ValueMap::new();
        self.push_to(&mut m);
        m
    }

    /// The `UserInfo` as a map value.
    pub fn into_value(self) -> (r: Value)
        ensures
            r@ == ValueView::Dict(self.pushed(Map::empty())),
    {
        dict_value(self.into_map())
    }
}

impl PushToValueMap for UserInfo {
    open spec fn pushed(self, m: Map<Seq<char>, ValueView>) -> Map<Seq<char>, ValueView> {
        m.insert("user_id"@, ValueView::Str(self.user_id@)).insert("user_name"@, ValueView::Str(self.user_name@)).insert("user_displayname"@, ValueView::Str(self.user_displayname@)).insert("user_remark"@, ValueView::Str(self.user_remark@))
    }

    fn push_to(self, map: &mut ValueMap) {
        proof { reveal_strlit("user_id"); reveal_strlit("user_name"); reveal_strlit("user_displayname"); reveal_strlit("user_remark"); }
        let _ = map.insert("user_id".to_owned(), Value::Str(self.user_id));
        let _ = map.insert("user_name".to_owned(), Value::Str(self.user_name));
        let _ = map.insert("user_displayname".to_owned(), Value::Str(self.user_displayname));
        let _ = map.insert("user_remark".to_owned(), Value::Str(self.user_remark));
    }
}

impl TryFromValue for UserInfo {
    open spec fn accepts(v: ValueView) -> bool {
        v matches ValueView::Dict(m) && UserInfo::fields_accept(m)
    }

    open spec fn converted(v: ValueView, r: UserInfo) -> bool {
        v matches ValueView::Dict(m) && UserInfo::fields_match(m, r)
    }

    open spec fn rejected(v: ValueView, e: WalleError) -> bool {
        match v {
            ValueView::Dict(m) => UserInfo::fields_error(m, e),
            _ => declare_mismatch_value(e, "Map Value"@, v),
        }
    }

    open spec fn spec_target_name() -> Seq<char> {
        "walle_core::structs::UserInfo"@
    }

    fn target_name() -> (r: String) {
        proof { reveal_strlit("walle_core::structs::UserInfo"); }
        "walle_core::structs::UserInfo".to_owned()
    }

    fn try_from_value(v: Value) -> (r: WalleResult<UserInfo>) {
        proof { reveal_strlit("Map Value"); }
        match v {
            Value::Dict(m) => {
                proof { lemma_dict_view(m); }
                let mut m = m;
                UserInfo::from_map(&mut m)
            },
            other => Err(WalleError::DeclareNotMatch("Map Value".to_owned(), other.debug_text())),
        }
    }
}

/// Information on a group.
#[derive(Debug, Clone, PartialEq)]
pub struct GroupInfo {
    pub group_id: String,
    pub group_name: String,
}

impl GroupInfo {
    /// Every field of a `GroupInfo` can be read from the map `m`.
    pub open spec fn fields_accept(m: Map<Seq<char>, ValueView>) -> bool {
        &&& field_accepts::<String>(m, "group_id"@)
        &&& field_accepts::<String>(m, "group_name"@)
    }

    /// `x` holds what the fields of the map `m` read as.
    pub open spec fn fields_match(m: Map<Seq<char>, ValueView>, x: GroupInfo) -> bool {
        &&& field_ok::<String>(m, "group_id"@, x.group_id)
        &&& field_ok::<String>(m, "group_name"@, x.group_name)
    }

    /// `e` is the error of the first field of the map `m` that cannot be read.
    pub open spec fn fields_error(m: Map<Seq<char>, ValueView>, e: WalleError) -> bool {
        if !field_accepts::<String>(m, "group_id"@) {
            field_fails::<String>(m, "group_id"@, e)
        } else if !field_accepts::<String>(m, "group_name"@) {
            field_fails::<String>(m, "group_name"@, e)
        } else {
            false
        }
    }

    /// The map `m` after the fields are read from it: every field read
    /// up to and including the first that fails is removed.
    pub open spec fn fields_rest(m: Map<Seq<char>, ValueView>) -> Map<Seq<char>, ValueView> {
        if !field_accepts::<String>(m, "group_id"@) {
            m.remove("group_id"@)
        } else if !field_accepts::<String>(m, "group_name"@) {
            m.remove("group_id"@).remove("group_name"@)
        } else {
            m.remove("group_id"@).remove("group_name"@)
        }
    }

    /// Reads a `GroupInfo` from the fields of `map`, removing each field read.
    pub fn from_map(map: &mut ValueMap) -> (r: WalleResult<GroupInfo>)
        ensures
            final(map)@ == GroupInfo::fields_rest(old(map)@),
            match r {
                Ok(x) => GroupInfo::fields_accept(old(map)@) && GroupInfo::fields_match(old(map)@, x),
                Err(e) => !GroupInfo::fields_accept(old(map)@) && GroupInfo::fields_error(old(map)@, e),
            },
    {
        proof { reveal_strlit("group_id"); reveal_strlit("group_name"); }
        assert("group_id"@ != "group_name"@) by { assert("group_id"@.len() == 8); assert("group_name"@.len() == 10); }
        let ghost m0 = map@;
        let group_id = match map.remove_downcast::<String>("group_id") {
            Ok(x) => x,
            Err(e) => return Err(e),
        };
        let group_name = match map.remove_downcast::<String>("group_name") {
            Ok(x) => x,
            Err(e) => return Err(e),
        };
        Ok(GroupInfo { group_id, group_name })
    }

    /// The fields of the `GroupInfo` as a map.
    pub fn into_map(self) -> (r: ValueMap)
        ensures
            r@ == self.pushed(Map::empty()),
    {
        let mut m = ValueMap::new();
        self.push_to(&mut m);
        m
    }

    /// The `GroupInfo` as a map value.
    pub fn into_value(self) -> (r: Value)
        ensures
            r@ == ValueView::Dict(self.pushed(Map::empty())),
    {
        dict_value(self.into_map())
    }
}

impl PushToValueMap for GroupInfo {
    open spec fn pushed(self, m: Map<Seq<char>, ValueView>) -> Map<Seq<char>, ValueView> {
        m.insert("group_id"@, ValueView::Str(self.group_id@)).insert("group_name"@, ValueView::Str(self.group_name@))
    }

    fn push_to(self, map: &mut ValueMap) {
        proof { reveal_strlit("group_id"); reveal_strlit("group_name"); }
        let _ = map.insert("group_id".to_owned(), Value::Str(self.group_id));
        let _ = map.insert("group_name".to_owned(), Value::Str(self.group_name));
    }
}

impl TryFromValue for GroupInfo {
    open spec fn accepts(v: ValueView) -> bool {
        v matches ValueView::Dict(m) && GroupInfo::fields_accept(m)
    }

    open spec fn converted(v: ValueView, r: GroupInfo) -> bool {
        v matches ValueView::Dict(m) && GroupInfo::fields_match(m, r)
    }

    open spec fn rejected(v: ValueView, e: WalleError) -> bool {
        match v {
            ValueView::Dict(m) => GroupInfo::fields_error(m, e),
            _ => declare_mismatch_value(e, "Map Value"@, v),
        }
    }

    open spec fn spec_target_name() -> Seq<char> {
        "walle_core::structs::GroupInfo"@
    }

    fn target_name() -> (r: String) {
        proof { reveal_strlit("walle_core::structs::GroupInfo"); }
        "walle_core::structs::GroupInfo".to_owned()
    }

    fn try_from_value(v: Value) -> (r: WalleResult<GroupInfo>) {
        proof { reveal_strlit("Map Value"); }
        match v {
            Value::Dict(m) => {
                proof { lemma_dict_view(m); }
                let mut m = m;
                GroupInfo::from_map(&mut m)
            },
            other => Err(WalleError::DeclareNotMatch("Map Value".to_owned(), other.debug_text())),
        }
    }
}

/// The id of a stored file.
#[derive(Debug, Clone, PartialEq)]
pub struct FileId {
    pub file_id: String,
}

impl FileId {
    /// Every field of a `FileId` can be read from the map `m`.
    pub open spec fn fields_accept(m: Map<Seq<char>, ValueView>) -> bool {
        &&& field_accepts::<String>(m, "file_id"@)
    }

    /// `x` holds what the fields of the map `m` read as.
    pub open spec fn fields_match(m: Map<Seq<char>, ValueView>, x: FileId) -> bool {
        &&& field_ok::<String>(m, "file_id"@, x.file_id)
    }

    /// `e` is the error of the first field of the map `m` that cannot be read.
    pub open spec fn fields_error(m: Map<Seq<char>, ValueView>, e: WalleError) -> bool {
        if !field_accepts::<String>(m, "file_id"@) {
            field_fails::<String>(m, "file_id"@, e)
        } else {
            false
        }
    }

    /// The map `m` after the fields are read from it: every field read
    /// up to and including the first that fails is removed.
    pub open spec fn fields_rest(m: Map<Seq<char>, ValueView>) -> Map<Seq<char>, ValueView> {
        if !field_accepts::<String>(m, "file_id"@) {
            m.remove("file_id"@)
        } else {
            m.remove("file_id"@)
        }
    }

    /// Reads a `FileId` from the fields of `map`, removing each field read.
    pub fn from_map(map: &mut ValueMap) -> (r: WalleResult<FileId>)
        ensures
            final(map)@ == FileId::fields_rest(old(map)@),
            match r {
                Ok(x) => FileId::fields_accept(old(map)@) && FileId::fields_match(old(map)@, x),
                Err(e) => !FileId::fields_accept(old(map)@) && FileId::fields_error(old(map)@, e),
            },
    {
        proof { reveal_strlit("file_id"); }
        let ghost m0 = map@;
        let file_id = match map.remove_downcast::<String>("file_id") {
            Ok(x) => x,
            Err(e) => return Err(e),
        };
        Ok(FileId { file_id })
    }

    /// The fields of the `FileId` as a map.
    pub fn into_map(self) -> (r: ValueMap)
        ensures
            r@ == self.pushed(Map::empty()),
    {
        let mut m = ValueMap::new();
        self.push_to(&mut m);
        m
    }

    /// The `FileId` as a map value.
    pub fn into_value(self) -> (r: Value)
        ensures
            r@ == ValueView::Dict(self.pushed(Map::empty())),
    {
        dict_value(self.into_map())
    }
}

impl PushToValueMap for FileId {
    open spec fn pushed(self, m: Map<Seq<char>, ValueView>) -> Map<Seq<char>, ValueView> {
        m.insert("file_id"@, ValueView::Str(self.file_id@))
    }

    fn push_to(self, map: &mut ValueMap) {
        proof { reveal_strlit("file_id"); }
        let _ = map.insert("file_id".to_owned(), Value::Str(self.file_id));
    }
}

impl TryFromValue for FileId {
    open spec fn accepts(v: ValueView) -> bool {
        v matches ValueView::Dict(m) && FileId::fields_accept(m)
    }

    open spec fn converted(v: ValueView, r: FileId) -> bool {
        v matches ValueView::Dict(m) && FileId::fields_match(m, r)
    }

    open spec fn rejected(v: ValueView, e: WalleError) -> bool {
        match v {
            ValueView::Dict(m) => FileId::fields_error(m, e),
            _ => declare_mismatch_value(e, "Map Value"@, v),
        }
    }

    open spec fn spec_target_name() -> Seq<char> {
        "walle_core::structs::FileId"@
    }

    fn target_name() -> (r: String) {
        proof { reveal_strlit("walle_core::structs::FileId"); }
        "walle_core::structs::FileId".to_owned()
    }

    fn try_from_value(v: Value) -> (r: WalleResult<FileId>) {
        proof { reveal_strlit("Map Value"); }
        match v {
            Value::Dict(m) => {
                proof { lemma_dict_view(m); }
                let mut m = m;
                FileId::from_map(&mut m)
            },
            other => Err(WalleError::DeclareNotMatch("Map Value".to_owned(), other.debug_text())),
        }
    }
}

/// A file; `headers` maps header names to values.
#[derive(Debug, Clone, PartialEq)]
pub struct File {
    pub name: String,
    pub url: Option<String>,
    pub headers: Option<ValueMap>,
    pub path: Option<String>,
    pub data: Option<Vec<u8>>,
    pub sha256: Option<String>,
}

impl File {
    /// Every field of a `File` can be read from the map `m`.
    pub open spec fn fields_accept(m: Map<Seq<char>, ValueView>) -> bool {
        &&& field_accepts::<String>(m, "name"@)
        &&& opt_field_accepts::<String>(m, "url"@)
        &&& opt_field_accepts::<ValueMap>(m, "headers"@)
        &&& opt_field_accepts::<String>(m, "path"@)
        &&& opt_field_accepts::<Vec<u8>>(m, "data"@)
        &&& opt_field_accepts::<String>(m, "sha256"@)
    }

    /// `x` holds what the fields of the map `m` read as.
    pub open spec fn fields_match(m: Map<Seq<char>, ValueView>, x: File) -> bool {
        &&& field_ok::<String>(m, "name"@, x.name)
        &&& opt_field_ok::<String>(m, "url"@, x.url)
        &&& opt_field_ok::<ValueMap>(m, "headers"@, x.headers)
        &&& opt_field_ok::<String>(m, "path"@, x.path)
        &&& opt_field_ok::<Vec<u8>>(m, "data"@, x.data)
        &&& opt_field_ok::<String>(m, "sha256"@, x.sha256)
    }

    /// `e` is the error of the first field of the map `m` that cannot be read.
    pub open spec fn fields_error(m: Map<Seq<char>, ValueView>, e: WalleError) -> bool {
        if !field_accepts::<String>(m, "name"@) {
            field_fails::<String>(m, "name"@, e)
        } else if !opt_field_accepts::<String>(m, "url"@) {
            opt_field_fails::<String>(m, "url"@, e)
        } else if !opt_field_accepts::<ValueMap>(m, "headers"@) {
            opt_field_fails::<ValueMap>(m, "headers"@, e)
        } else if !opt_field_accepts::<String>(m, "path"@) {
            opt_field_fails::<String>(m, "path"@, e)
        } else if !opt_field_accepts::<Vec<u8>>(m, "data"@) {
            opt_field_fails::<Vec<u8>>(m, "data"@, e)
        } else if !opt_field_accepts::<String>(m, "sha256"@) {
            opt_field_fails::<String>(m, "sha256"@, e)
        } else {
            false
        }
    }

    /// The map `m` after the fields are read from it: every field read
    /// up to and including the first that fails is removed.
    pub open spec fn fields_rest(m: Map<Seq<char>, ValueView>) -> Map<Seq<char>, ValueView> {
        if !field_accepts::<String>(m, "name"@) {
            m.remove("name"@)
        } else if !opt_field_accepts::<String>(m, "url"@) {
            m.remove("name"@).remove("url"@)
        } else if !opt_field_accepts::<ValueMap>(m, "headers"@) {
            m.remove("name"@).remove("url"@).remove("headers"@)
        } else if !opt_field_accepts::<String>(m, "path"@) {
            m.remove("name"@).remove("url"@).remove("headers"@).remove("path"@)
        } else if !opt_field_accepts::<Vec<u8>>(m, "data"@) {
            m.remove("name"@).remove("url"@).remove("headers"@).remove("path"@).remove("data"@)
        } else if !opt_field_accepts::<String>(m, "sha256"@) {
            m.remove("name"@).remove("url"@).remove("headers"@).remove("path"@).remove("data"@).remove("sha256"@)
        } else {
            m.remove("name"@).remove("url"@).remove("headers"@).remove("path"@).remove("data"@).remove("sha256"@)
        }
    }

    /// Reads a `File` from the fields of `map`, removing each field read.
    pub fn from_map(map: &mut ValueMap) -> (r: WalleResult<File>)
        ensures
            final(map)@ == File::fields_rest(old(map)@),
            match r {
                Ok(x) => File::fields_accept(old(map)@) && File::fields_match(old(map)@, x),
                Err(e) => !File::fields_accept(old(map)@) && File::fields_error(old(map)@, e),
            },
    {
        proof { reveal_strlit("name"); reveal_strlit("url"); reveal_strlit("headers"); reveal_strlit("path"); reveal_strlit("data"); reveal_strlit("sha256"); }
        assert("name"@ != "url"@) by { assert("name"@.len() == 4); assert("url"@.len() == 3); }
        assert("name"@ != "headers"@) by { assert("name"@.len() == 4); assert("headers"@.len() == 7); }
        assert("name"@ != "path"@) by { assert("name"@[0] == 'n'); assert("path"@[0] == 'p'); }
        assert("name"@ != "data"@) by { assert("name"@[0] == 'n'); assert("data"@[0] == 'd'); }
        assert("name"@ != "sha256"@) by { assert("name"@.len() == 4); assert("sha256"@.len() == 6); }
        assert("url"@ != "headers"@) by { assert("url"@.len() == 3); assert("headers"@.len() == 7); }
        assert("url"@ != "path"@) by { assert("url"@.len() == 3); assert("path"@.len() == 4); }
        assert("url"@ != "data"@) by { assert("url"@.len() == 3); assert("data"@.len() == 4); }
        assert("url"@ != "sha256"@) by { assert("url"@.len() == 3); assert("sha256"@.len() == 6); }
        assert("headers"@ != "path"@) by { assert("headers"@.len() == 7); assert("path"@.len() == 4); }
        assert("headers"@ != "data"@) by { assert("headers"@.len() == 7); assert("data"@.len() == 4); }
        assert("headers"@ != "sha256"@) by { assert("headers"@.len() == 7); assert("sha256"@.len() == 6); }
        assert("path"@ != "data"@) by { assert("path"@[0] == 'p'); assert("data"@[0] == 'd'); }
        assert("path"@ != "sha256"@) by { assert("path"@.len() == 4); assert("sha256"@.len() == 6); }
        assert("data"@ != "sha256"@) by { assert("data"@.len() == 4); assert("sha256"@.len() == 6); }
        let ghost m0 = map@;
        let name = match map.remove_downcast::<String>("name") {
            Ok(x) => x,
            Err(e) => return Err(e),
        };
        let url = match map.try_remove_downcast::<String>("url") {
            Ok(x) => x,
            Err(e) => return Err(e),
        };
        let headers = match map.try_remove_downcast::<ValueMap>("headers") {
            Ok(x) => x,
            Err(e) => return Err(e),
        };
        let path = match map.try_remove_downcast::<String>("path") {
            Ok(x) => x,
            Err(e) => return Err(e),
        };
        let data = match map.try_remove_downcast::<Vec<u8>>("data") {
            Ok(x) => x,
            Err(e) => return Err(e),
        };
        let sha256 = match map.try_remove_downcast::<String>("sha256") {
            Ok(x) => x,
            Err(e) => return Err(e),
        };
        Ok(File { name, url, headers, path, data, sha256 })
    }

    /// The fields of the `File` as a map.
    pub fn into_map(self) -> (r: ValueMap)
        ensures
            r@ == self.pushed(Map::empty()),
    {
        let mut m = ValueMap::new();
        self.push_to(&mut m);
        m
    }

    /// The `File` as a map value.
    pub fn into_value(self) -> (r: Value)
        ensures
            r@ == ValueView::Dict(self.pushed(Map::empty())),
    {
        dict_value(self.into_map())
    }
}

impl PushToValueMap for File {
    open spec fn pushed(self, m: Map<Seq<char>, ValueView>) -> Map<Seq<char>, ValueView> {
        m.insert("name"@, ValueView::Str(self.name@)).insert("url"@, match self.url { Some(y) => ValueView::Str(y@), None => ValueView::Null }).insert("headers"@, match self.headers { Some(y) => ValueView::Dict(y@), None => ValueView::Null }).insert("path"@, match self.path { Some(y) => ValueView::Str(y@), None => ValueView::Null }).insert("data"@, match self.data { Some(y) => ValueView::Bytes(y@), None => ValueView::Null }).insert("sha256"@, match self.sha256 { Some(y) => ValueView::Str(y@), None => ValueView::Null })
    }

    fn push_to(self, map: &mut ValueMap) {
        proof { reveal_strlit("name"); reveal_strlit("url"); reveal_strlit("headers"); reveal_strlit("path"); reveal_strlit("data"); reveal_strlit("sha256"); }
        let _ = map.insert("name".to_owned(), Value::Str(self.name));
        let _ = map.insert("url".to_owned(), match self.url { Some(y) => Value::Str(y), None => Value::Null });
        let _ = map.insert("headers".to_owned(), match self.headers { Some(y) => dict_value(y), None => Value::Null });
        let _ = map.insert("path".to_owned(), match self.path { Some(y) => Value::Str(y), None => Value::Null });
        let _ = map.insert("data".to_owned(), match self.data { Some(y) => Value::Bytes(OneBotBytes(y)), None => Value::Null });
        let _ = map.insert("sha256".to_owned(), match self.sha256 { Some(y) => Value::Str(y), None => Value::Null });
    }
}

impl TryFromValue for File {
    open spec fn accepts(v: ValueView) -> bool {
        v matches ValueView::Dict(m) && File::fields_accept(m)
    }

    open spec fn converted(v: ValueView, r: File) -> bool {
        v matches ValueView::Dict(m) && File::fields_match(m, r)
    }

    open spec fn rejected(v: ValueView, e: WalleError) -> bool {
        match v {
            ValueView::Dict(m) => File::fields_error(m, e),
            _ => declare_mismatch_value(e, "Map Value"@, v),
        }
    }

    open spec fn spec_target_name() -> Seq<char> {
        "walle_core::structs::File"@
    }

    fn target_name() -> (r: String) {
        proof { reveal_strlit("walle_core::structs::File"); }
        "walle_core::structs::File".to_owned()
    }

    fn try_from_value(v: Value) -> (r: WalleResult<File>) {
        proof { reveal_strlit("Map Value"); }
        match v {
            Value::Dict(m) => {
                proof { lemma_dict_view(m); }
                let mut m = m;
                File::from_map(&mut m)
            },
            other => Err(WalleError::DeclareNotMatch("Map Value".to_owned(), other.debug_text())),
        }
    }
}

/// Information on a guild.
#[derive(Debug, Clone, PartialEq)]
pub struct GuildInfo {
    pub guild_id: String,
    pub guild_name: String,
}

impl GuildInfo {
    /// Every field of a `GuildInfo` can be read from the map `m`.
    pub open spec fn fields_accept(m: Map<Seq<char>, ValueView>) -> bool {
        &&& field_accepts::<String>(m, "guild_id"@)
        &&& field_accepts::<String>(m, "guild_name"@)
    }

    /// `x` holds what the fields of the map `m` read as.
    pub open spec fn fields_match(m: Map<Seq<char>, ValueView>, x: GuildInfo) -> bool {
        &&& field_ok::<String>(m, "guild_id"@, x.guild_id)
        &&& field_ok::<String>(m, "guild_name"@, x.guild_name)
    }

    /// `e` is the error of the first field of the map `m` that cannot be read.
    pub open spec fn fields_error(m: Map<Seq<char>, ValueView>, e: WalleError) -> bool {
        if !field_accepts::<String>(m, "guild_id"@) {
            field_fails::<String>(m, "guild_id"@, e)
        } else if !field_accepts::<String>(m, "guild_name"@) {
            field_fails::<String>(m, "guild_name"@, e)
        } else {
            false
        }
    }

    /// The map `m` after the fields are read from it: every field read
    /// up to and including the first that fails is removed.
    pub open spec fn fields_rest(m: Map<Seq<char>, ValueView>) -> Map<Seq<char>, ValueView> {
        if !field_accepts::<String>(m, "guild_id"@) {
            m.remove("guild_id"@)
        } else if !field_accepts::<String>(m, "guild_name"@) {
            m.remove("guild_id"@).remove("guild_name"@)
        } else {
            m.remove("guild_id"@).remove("guild_name"@)
        }
    }

    /// Reads a `GuildInfo` from the fields of `map`, removing each field read.
    pub fn from_map(map: &mut ValueMap) -> (r: WalleResult<GuildInfo>)
        ensures
            final(map)@ == GuildInfo::fields_rest(old(map)@),
            match r {
                Ok(x) => GuildInfo::fields_accept(old(map)@) && GuildInfo::fields_match(old(map)@, x),
                Err(e) => !GuildInfo::fields_accept(old(map)@) && GuildInfo::fields_error(old(map)@, e),
            },
    {
        proof { reveal_strlit("guild_id"); reveal_strlit("guild_name"); }
        assert("guild_id"@ != "guild_name"@) by { assert("guild_id"@.len() == 8); assert("guild_name"@.len() == 10); }
        let ghost m0 = map@;
        let guild_id = match map.remove_downcast::<String>("guild_id") {
            Ok(x) => x,
            Err(e) => return Err(e),
        };
        let guild_name = match map.remove_downcast::<String>("guild_name") {
            Ok(x) => x,
            Err(e) => return Err(e),
        };
        Ok(GuildInfo { guild_id, guild_name })
    }

    /// The fields of the `GuildInfo` as a map.
    pub fn into_map(self) -> (r: ValueMap)
        ensures
            r@ == self.pushed(Map::empty()),
    {
        let mut m = ValueMap::new();
        self.push_to(&mut m);
        m
    }

    /// The `GuildInfo` as a map value.
    pub fn into_value(self) -> (r: Value)
        ensures
            r@ == ValueView::Dict(self.pushed(Map::empty())),
    {
        dict_value(self.into_map())
    }
}

impl PushToValueMap for GuildInfo {
    open spec fn pushed(self, m: Map<Seq<char>, ValueView>) -> Map<Seq<char>, ValueView> {
        m.insert("guild_id"@, ValueView::Str(self.guild_id@)).insert("guild_name"@, ValueView::Str(self.guild_name@))
    }

    fn push_to(self, map: &mut ValueMap) {
        proof { reveal_strlit("guild_id"); reveal_strlit("guild_name"); }
        let _ = map.insert("guild_id".to_owned(), Value::Str(self.guild_id));
        let _ = map.insert("guild_name".to_owned(), Value::Str(self.guild_name));
    }
}

impl TryFromValue for GuildInfo {
    open spec fn accepts(v: ValueView) -> bool {
        v matches ValueView::Dict(m) && GuildInfo::fields_accept(m)
    }

    open spec fn converted(v: ValueView, r: GuildInfo) -> bool {
        v matches ValueView::Dict(m) && GuildInfo::fields_match(m, r)
    }

    open spec fn rejected(v: ValueView, e: WalleError) -> bool {
        match v {
            ValueView::Dict(m) => GuildInfo::fields_error(m, e),
            _ => declare_mismatch_value(e, "Map Value"@, v),
        }
    }

    open spec fn spec_target_name() -> Seq<char> {
        "walle_core::structs::GuildInfo"@
    }

    fn target_name() -> (r: String) {
        proof { reveal_strlit("walle_core::structs::GuildInfo"); }
        "walle_core::structs::GuildInfo".to_owned()
    }

    fn try_from_value(v: Value) -> (r: WalleResult<GuildInfo>) {
        proof { reveal_strlit("Map Value"); }
        match v {
            Value::Dict(m) => {
                proof { lemma_dict_view(m); }
                let mut m = m;
                GuildInfo::from_map(&mut m)
            },
            other => Err(WalleError::DeclareNotMatch("Map Value".to_owned(), other.debug_text())),
        }
    }
}

/// Information on a channel.
#[derive(Debug, Clone, PartialEq)]
pub struct ChannelInfo {
    pub channel_id: String,
    pub channel_name: String,
}

impl ChannelInfo {
    /// Every field of a `ChannelInfo` can be read from the map `m`.
    pub open spec fn fields_accept(m: Map<Seq<char>, ValueView>) -> bool {
        &&& field_accepts::<String>(m, "channel_id"@)
        &&& field_accepts::<String>(m, "channel_name"@)
    }

    /// `x` holds what the fields of the map `m` read as.
    pub open spec fn fields_match(m: Map<Seq<char>, ValueView>, x: ChannelInfo) -> bool {
        &&& field_ok::<String>(m, "channel_id"@, x.channel_id)
        &&& field_ok::<String>(m, "channel_name"@, x.channel_name)
    }

    /// `e` is the error of the first field of the map `m` that cannot be read.
    pub open spec fn fields_error(m: Map<Seq<char>, ValueView>, e: WalleError) -> bool {
        if !field_accepts::<String>(m, "channel_id"@) {
            field_fails::<String>(m, "channel_id"@, e)
        } else if !field_accepts::<String>(m, "channel_name"@) {
            field_fails::<String>(m, "channel_name"@, e)
        } else {
            false
        }
    }

    /// The map `m` after the fields are read from it: every field read
    /// up to and including the first that fails is removed.
    pub open spec fn fields_rest(m: Map<Seq<char>, ValueView>) -> Map<Seq<char>, ValueView> {
        if !field_accepts::<String>(m, "channel_id"@) {
            m.remove("channel_id"@)
        } else if !field_accepts::<String>(m, "channel_name"@) {
            m.remove("channel_id"@).remove("channel_name"@)
        } else {
            m.remove("channel_id"@).remove("channel_name"@)
        }
    }

    /// Reads a `ChannelInfo` from the fields of `map`, removing each field read.
    pub fn from_map(map: &mut ValueMap) -> (r: WalleResult<ChannelInfo>)
        ensures
            final(map)@ == ChannelInfo::fields_rest(old(map)@),
            match r {
                Ok(x) => ChannelInfo::fields_accept(old(map)@) && ChannelInfo::fields_match(old(map)@, x),
                Err(e) => !ChannelInfo::fields_accept(old(map)@) && ChannelInfo::fields_error(old(map)@, e),
            },
    {
        proof { reveal_strlit("channel_id"); reveal_strlit("channel_name"); }
        assert("channel_id"@ != "channel_name"@) by { assert("channel_id"@.len() == 10); assert("channel_name"@.len() == 12); }
        let ghost m0 = map@;
        let channel_id = match map.remove_downcast::<String>("channel_id") {
            Ok(x) => x,
            Err(e) => return Err(e),
        };
        let channel_name = match map.remove_downcast::<String>("channel_name") {
            Ok(x) => x,
            Err(e) => return Err(e),
        };
        Ok(ChannelInfo { channel_id, channel_name })
    }

    /// The fields of the `ChannelInfo` as a map.
    pub fn into_map(self) -> (r: ValueMap)
        ensures
            r@ == self.pushed(Map::empty()),
    {
        let mut m = ValueMap::new();
        self.push_to(&mut m);
        m
    }

    /// The `ChannelInfo` as a map value.
    pub fn into_value(self) -> (r: Value)
        ensures
            r@ == ValueView::Dict(self.pushed(Map::empty())),
    {
        dict_value(self.into_map())
    }
}

impl PushToValueMap for ChannelInfo {
    open spec fn pushed(self, m: Map<Seq<char>, ValueView>) -> Map<Seq<char>, ValueView> {
        m.insert("channel_id"@, ValueView::Str(self.channel_id@)).insert("channel_name"@, ValueView::Str(self.channel_name@))
    }

    fn push_to(self, map: &mut ValueMap) {
        proof { reveal_strlit("channel_id"); reveal_strlit("channel_name"); }
        let _ = map.insert("channel_id".to_owned(), Value::Str(self.channel_id));
        let _ = map.insert("channel_name".to_owned(), Value::Str(self.channel_name));
    }
}

impl TryFromValue for ChannelInfo {
    open spec fn accepts(v: ValueView) -> bool {
        v matches ValueView::Dict(m) && ChannelInfo::fields_accept(m)
    }

    open spec fn converted(v: ValueView, r: ChannelInfo) -> bool {
        v matches ValueView::Dict(m) && ChannelInfo::fields_match(m, r)
    }

    open spec fn rejected(v: ValueView, e: WalleError) -> bool {
        match v {
            ValueView::Dict(m) => ChannelInfo::fields_error(m, e),
            _ => declare_mismatch_value(e, "Map Value"@, v),
        }
    }

    open spec fn spec_target_name() -> Seq<char> {
        "walle_core::structs::ChannelInfo"@
    }

    fn target_name() -> (r: String) {
        proof { reveal_strlit("walle_core::structs::ChannelInfo"); }
        "walle_core::structs::ChannelInfo".to_owned()
    }

    fn try_from_value(v: Value) -> (r: WalleResult<ChannelInfo>) {
        proof { reveal_strlit("Map Value"); }
        match v {
            Value::Dict(m) => {
                proof { lemma_dict_view(m); }
                let mut m = m;
                ChannelInfo::from_map(&mut m)
            },
            other => Err(WalleError::DeclareNotMatch("Map Value".to_owned(), other.debug_text())),
        }
    }
}

/// The version of an implementation.
#[derive(Debug, Clone, PartialEq)]
pub struct Version {
    pub implt: String,
    pub platform: String,
    pub version: String,
    pub onebot_version: String,
}

impl Version {
    /// Every field of a `Version` can be read from the map `m`.
    pub open spec fn fields_accept(m: Map<Seq<char>, ValueView>) -> bool {
        &&& field_accepts::<String>(m, "impl"@)
        &&& field_accepts::<String>(m, "platform"@)
        &&& field_accepts::<String>(m, "version"@)
        &&& field_accepts::<String>(m, "onebot_version"@)
    }

    /// `x` holds what the fields of the map `m` read as.
    pub open spec fn fields_match(m: Map<Seq<char>, ValueView>, x: Version) -> bool {
        &&& field_ok::<String>(m, "impl"@, x.implt)
        &&& field_ok::<String>(m, "platform"@, x.platform)
        &&& field_ok::<String>(m, "version"@, x.version)
        &&& field_ok::<String>(m, "onebot_version"@, x.onebot_version)
    }

    /// `e` is the error of the first field of the map `m` that cannot be read.
    pub open spec fn fields_error(m: Map<Seq<char>, ValueView>, e: WalleError) -> bool {
        if !field_accepts::<String>(m, "impl"@) {
            field_fails::<String>(m, "impl"@, e)
        } else if !field_accepts::<String>(m, "platform"@) {
            field_fails::<String>(m, "platform"@, e)
        } else if !field_accepts::<String>(m, "version"@) {
            field_fails::<String>(m, "version"@, e)
        } else if !field_accepts::<String>(m, "onebot_version"@) {
            field_fails::<String>(m, "onebot_version"@, e)
        } else {
            false
        }
    }

    /// The map `m` after the fields are read from it: every field read
    /// up to and including the first that fails is removed.
    pub open spec fn fields_rest(m: Map<Seq<char>, ValueView>) -> Map<Seq<char>, ValueView> {
        if !field_accepts::<String>(m, "impl"@) {
            m.remove("impl"@)
        } else if !field_accepts::<String>(m, "platform"@) {
            m.remove("impl"@).remove("platform"@)
        } else if !field_accepts::<String>(m, "version"@) {
            m.remove("impl"@).remove("platform"@).remove("version"@)
        } else if !field_accepts::<String>(m, "onebot_version"@) {
            m.remove("impl"@).remove("platform"@).remove("version"@).remove("onebot_version"@)
        } else {
            m.remove("impl"@).remove("platform"@).remove("version"@).remove("onebot_version"@)
        }
    }

    /// Reads a `Version` from the fields of `map`, removing each field read.
    pub fn from_map(map: &mut ValueMap) -> (r: WalleResult<Version>)
        ensures
            final(map)@ == Version::fields_rest(old(map)@),
            match r {
                Ok(x) => Version::fields_accept(old(map)@) && Version::fields_match(old(map)@, x),
                Err(e) => !Version::fields_accept(old(map)@) && Version::fields_error(old(map)@, e),
            },
    {
        proof { reveal_strlit("impl"); reveal_strlit("platform"); reveal_strlit("version"); reveal_strlit("onebot_version"); }
        assert("impl"@ != "platform"@) by { assert("impl"@.len() == 4); assert("platform"@.len() == 8); }
        assert("impl"@ != "version"@) by { assert("impl"@.len() == 4); assert("version"@.len() == 7); }
        assert("impl"@ != "onebot_version"@) by { assert("impl"@.len() == 4); assert("onebot_version"@.len() == 14); }
        assert("platform"@ != "version"@) by { assert("platform"@.len() == 8); assert("version"@.len() == 7); }
        assert("platform"@ != "onebot_version"@) by { assert("platform"@.len() == 8); assert("onebot_version"@.len() == 14); }
        assert("version"@ != "onebot_version"@) by { assert("version"@.len() == 7); assert("onebot_version"@.len() == 14); }
        let ghost m0 = map@;
        let implt = match map.remove_downcast::<String>("impl") {
            Ok(x) => x,
            Err(e) => return Err(e),
        };
        let platform = match map.remove_downcast::<String>("platform") {
            Ok(x) => x,
            Err(e) => return Err(e),
        };
        let version = match map.remove_downcast::<String>("version") {
            Ok(x) => x,
            Err(e) => return Err(e),
        };
        let onebot_version = match map.remove_downcast::<String>("onebot_version") {
            Ok(x) => x,
            Err(e) => return Err(e),
        };
        Ok(Version { implt, platform, version, onebot_version })
    }

    /// The fields of the `Version` as a map.
    pub fn into_map(self) -> (r: ValueMap)
        ensures
            r@ == self.pushed(Map::empty()),
    {
        let mut m = ValueMap::new();
        self.push_to(&mut m);
        m
    }

    /// The `Version` as a map value.
    pub fn into_value(self) -> (r: Value)
        ensures
            r@ == ValueView::Dict(self.pushed(Map::empty())),
    {
        dict_value(self.into_map())
    }
}

impl PushToValueMap for Version {
    open spec fn pushed(self, m: Map<Seq<char>, ValueView>) -> Map<Seq<char>, ValueView> {
        m.insert("impl"@, ValueView::Str(self.implt@)).insert("platform"@, ValueView::Str(self.platform@)).insert("version"@, ValueView::Str(self.version@)).insert("onebot_version"@, ValueView::Str(self.onebot_version@))
    }

    fn push_to(self, map: &mut ValueMap) {
        proof { reveal_strlit("impl"); reveal_strlit("platform"); reveal_strlit("version"); reveal_strlit("onebot_version"); }
        let _ = map.insert("impl".to_owned(), Value::Str(self.implt));
        let _ = map.insert("platform".to_owned(), Value::Str(self.platform));
        let _ = map.insert("version".to_owned(), Value::Str(self.version));
        let _ = map.insert("onebot_version".to_owned(), Value::Str(self.onebot_version));
    }
}

impl TryFromValue for Version {
    open spec fn accepts(v: ValueView) -> bool {
        v matches ValueView::Dict(m) && Version::fields_accept(m)
    }

    open spec fn converted(v: ValueView, r: Version) -> bool {
        v matches ValueView::Dict(m) && Version::fields_match(m, r)
    }

    open spec fn rejected(v: ValueView, e: WalleError) -> bool {
        match v {
            ValueView::Dict(m) => Version::fields_error(m, e),
            _ => declare_mismatch_value(e, "Map Value"@, v),
        }
    }

    open spec fn spec_target_name() -> Seq<char> {
        "walle_core::structs::Version"@
    }

    fn target_name() -> (r: String) {
        proof { reveal_strlit("walle_core::structs::Version"); }
        "walle_core::structs::Version".to_owned()
    }

    fn try_from_value(v: Value) -> (r: WalleResult<Version>) {
        proof { reveal_strlit("Map Value"); }
        match v {
            Value::Dict(m) => {
                proof { lemma_dict_view(m); }
                let mut m = m;
                Version::from_map(&mut m)
            },
            other => Err(WalleError::DeclareNotMatch("Map Value".to_owned(), other.debug_text())),
        }
    }
}


/// The model of a list of bots as a value: a list of their maps.
pub open spec fn bots_view(bots: Seq<Bot>) -> ValueView {
    ValueView::List(Seq::new(bots.len(), |i: int| ValueView::Dict(bots[i].pushed(Map::empty()))))
}

/// A list of bots as a value.
pub fn bots_into_value(bots: Vec<Bot>) -> (r: Value)
    ensures
        r@ == bots_view(bots@),
{
    let ghost b0 = bots@;
    let mut bots = bots;
    let mut out: Vec<Value> = Vec::new();
    let n = bots.len();
    let mut i: usize = 0;
    while i < n
        invariant
            i <= n,
            n == b0.len(),
            bots@ == b0.subrange(i as int, n as int),
            out@.len() == i,
            forall|j: int| 0 <= j < i ==> #[trigger] out@[j]@ == ValueView::Dict(b0[j].pushed(Map::empty())),
        decreases n - i,
    {
        let b = bots.remove(0);
        assert(b == b0[i as int]);
        out.push(b.into_value());
        assert(bots@ =~= b0.subrange(i + 1, n as int));
        i = i + 1;
    }
    let ghost o = out@;
    let r = Value::List(out);
    assert(r@->List_0 =~= bots_view(b0)->List_0) by {
        assert forall|j: int| 0 <= j < n implies r@->List_0[j] == bots_view(b0)->List_0[j] by {
            assert(r@->List_0[j] == o[j]@);
        }
    }
    r
}

impl TryFromValue for Vec<Bot> {
    open spec fn accepts(v: ValueView) -> bool {
        list_accepts::<Bot>(v)
    }

    open spec fn converted(v: ValueView, r: Vec<Bot>) -> bool {
        list_converted::<Bot>(v, r@)
    }

    open spec fn rejected(v: ValueView, e: WalleError) -> bool {
        list_rejected::<Bot>(v, e)
    }

    open spec fn spec_target_name() -> Seq<char> {
        "alloc::vec::Vec<"@ + Bot::spec_target_name() + ">"@
    }

    fn target_name() -> (r: String) {
        proof { reveal_strlit("alloc::vec::Vec<"); reveal_strlit(">"); reveal_strlit("walle_core::structs::Bot"); }
        let mut s = "alloc::vec::Vec<".to_owned();
        push_str(&mut s, "walle_core::structs::Bot");
        push_str(&mut s, ">");
        s
    }

    fn try_from_value(v: Value) -> (r: WalleResult<Vec<Bot>>) {
        list_from_value::<Bot>(v)
    }
}

/// Reading a `Selft` back from the map value it makes gives it back.
pub proof fn law_selft_value_roundtrip(x: Selft)
    ensures
        Selft::accepts(ValueView::Dict(x.pushed(Map::empty()))),
        Selft::converted(ValueView::Dict(x.pushed(Map::empty())), x),
{
    reveal_strlit("platform"); reveal_strlit("user_id");
    assert("platform"@ != "user_id"@) by { assert("platform"@.len() == 8); assert("user_id"@.len() == 7); }
}

/// Reading a `SendMessageResp` back from the map value it makes gives it back.
pub proof fn law_send_message_resp_value_roundtrip(x: SendMessageResp)
    ensures
        SendMessageResp::accepts(ValueView::Dict(x.pushed(Map::empty()))),
        SendMessageResp::converted(ValueView::Dict(x.pushed(Map::empty())), x),
{
    reveal_strlit("message_id"); reveal_strlit("time");
    assert("message_id"@ != "time"@) by { assert("message_id"@.len() == 10); assert("time"@.len() == 4); }
}

/// Reading a `UserInfo` back from the map value it makes gives it back.
pub proof fn law_user_info_value_roundtrip(x: UserInfo)
    ensures
        UserInfo::accepts(ValueView::Dict(x.pushed(Map::empty()))),
        UserInfo::converted(ValueView::Dict(x.pushed(Map::empty())), x),
{
    reveal_strlit("user_id"); reveal_strlit("user_name"); reveal_strlit("user_displayname"); reveal_strlit("user_remark");
    assert("user_id"@ != "user_name"@) by { assert("user_id"@.len() == 7); assert("user_name"@.len() == 9); }
    assert("user_id"@ != "user_displayname"@) by { assert("user_id"@.len() == 7); assert("user_displayname"@.len() == 16); }
    assert("user_id"@ != "user_remark"@) by { assert("user_id"@.len() == 7); assert("user_remark"@.len() == 11); }
    assert("user_name"@ != "user_displayname"@) by { assert("user_name"@.len() == 9); assert("user_displayname"@.len() == 16); }
    assert("user_name"@ != "user_remark"@) by { assert("user_name"@.len() == 9); assert("user_remark"@.len() == 11); }
    assert("user_displayname"@ != "user_remark"@) by { assert("user_displayname"@.len() == 16); assert("user_remark"@.len() == 11); }
}

/// Reading a `GroupInfo` back from the map value it makes gives it back.
pub proof fn law_group_info_value_roundtrip(x: GroupInfo)
    ensures
        GroupInfo::accepts(ValueView::Dict(x.pushed(Map::empty()))),
        GroupInfo::converted(ValueView::Dict(x.pushed(Map::empty())), x),
{
    reveal_strlit("group_id"); reveal_strlit("group_name");
    assert("group_id"@ != "group_name"@) by { assert("group_id"@.len() == 8); assert("group_name"@.len() == 10); }
}

/// Reading a `FileId` back from the map value it makes gives it back.
pub proof fn law_file_id_value_roundtrip(x: FileId)
    ensures
        FileId::accepts(ValueView::Dict(x.pushed(Map::empty()))),
        FileId::converted(ValueView::Dict(x.pushed(Map::empty())), x),
{
    reveal_strlit("file_id");
}

/// Reading a `File` back from the map value it makes gives it back,
/// where it holds no data: the data is written as bytes but read as a
/// list of integers.
pub proof fn law_file_value_roundtrip(x: File)
    requires
        x.data is None,
    ensures
        File::accepts(ValueView::Dict(x.pushed(Map::empty()))),
        File::converted(ValueView::Dict(x.pushed(Map::empty())), x),
{
    reveal_strlit("name"); reveal_strlit("url"); reveal_strlit("headers"); reveal_strlit("path"); reveal_strlit("data"); reveal_strlit("sha256");
    assert("name"@ != "url"@) by { assert("name"@.len() == 4); assert("url"@.len() == 3); }
    assert("name"@ != "headers"@) by { assert("name"@.len() == 4); assert("headers"@.len() == 7); }
    assert("name"@ != "path"@) by { assert("name"@[0] == 'n'); assert("path"@[0] == 'p'); }
    assert("name"@ != "data"@) by { assert("name"@[0] == 'n'); assert("data"@[0] == 'd'); }
    assert("name"@ != "sha256"@) by { assert("name"@.len() == 4); assert("sha256"@.len() == 6); }
    assert("url"@ != "headers"@) by { assert("url"@.len() == 3); assert("headers"@.len() == 7); }
    assert("url"@ != "path"@) by { assert("url"@.len() == 3); assert("path"@.len() == 4); }
    assert("url"@ != "data"@) by { assert("url"@.len() == 3); assert("data"@.len() == 4); }
    assert("url"@ != "sha256"@) by { assert("url"@.len() == 3); assert("sha256"@.len() == 6); }
    assert("headers"@ != "path"@) by { assert("headers"@.len() == 7); assert("path"@.len() == 4); }
    assert("headers"@ != "data"@) by { assert("headers"@.len() == 7); assert("data"@.len() == 4); }
    assert("headers"@ != "sha256"@) by { assert("headers"@.len() == 7); assert("sha256"@.len() == 6); }
    assert("path"@ != "data"@) by { assert("path"@[0] == 'p'); assert("data"@[0] == 'd'); }
    assert("path"@ != "sha256"@) by { assert("path"@.len() == 4); assert("sha256"@.len() == 6); }
    assert("data"@ != "sha256"@) by { assert("data"@.len() == 4); assert("sha256"@.len() == 6); }
}

/// Reading a `GuildInfo` back from the map value it makes gives it back.
pub proof fn law_guild_info_value_roundtrip(x: GuildInfo)
    ensures
        GuildInfo::accepts(ValueView::Dict(x.pushed(Map::empty()))),
        GuildInfo::converted(ValueView::Dict(x.pushed(Map::empty())), x),
{
    reveal_strlit("guild_id"); reveal_strlit("guild_name");
    assert("guild_id"@ != "guild_name"@) by { assert("guild_id"@.len() == 8); assert("guild_name"@.len() == 10); }
}

/// Reading a `ChannelInfo` back from the map value it makes gives it back.
pub proof fn law_channel_info_value_roundtrip(x: ChannelInfo)
    ensures
        ChannelInfo::accepts(ValueView::Dict(x.pushed(Map::empty()))),
        ChannelInfo::converted(ValueView::Dict(x.pushed(Map::empty())), x),
{
    reveal_strlit("channel_id"); reveal_strlit("channel_name");
    assert("channel_id"@ != "channel_name"@) by { assert("channel_id"@.len() == 10); assert("channel_name"@.len() == 12); }
}

/// Reading a `Version` back from the map value it makes gives it back.
pub proof fn law_version_value_roundtrip(x: Version)
    ensures
        Version::accepts(ValueView::Dict(x.pushed(Map::empty()))),
        Version::converted(ValueView::Dict(x.pushed(Map::empty())), x),
{
    reveal_strlit("impl"); reveal_strlit("platform"); reveal_strlit("version"); reveal_strlit("onebot_version");
    assert("impl"@ != "platform"@) by { assert("impl"@.len() == 4); assert("platform"@.len() == 8); }
    assert("impl"@ != "version"@) by { assert("impl"@.len() == 4); assert("version"@.len() == 7); }
    assert("impl"@ != "onebot_version"@) by { assert("impl"@.len() == 4); assert("onebot_version"@.len() == 14); }
    assert("platform"@ != "version"@) by { assert("platform"@.len() == 8); assert("version"@.len() == 7); }
    assert("platform"@ != "onebot_version"@) by { assert("platform"@.len() == 8); assert("onebot_version"@.len() == 14); }
    assert("version"@ != "onebot_version"@) by { assert("version"@.len() == 7); assert("onebot_version"@.len() == 14); }
}


/// Reading a `Bot` back from the map value it makes gives it back.
pub proof fn law_bot_value_roundtrip(x: Bot)
    ensures
        Bot::accepts(ValueView::Dict(x.pushed(Map::empty()))),
        Bot::converted(ValueView::Dict(x.pushed(Map::empty())), x),
{
    reveal_strlit("self"); reveal_strlit("online");
    assert("self"@ != "online"@) by { assert("self"@.len() == 4); assert("online"@.len() == 6); }
    law_selft_value_roundtrip(x.selft);
}

/// Reading a `Status` back from the map value it makes gives it back.
pub proof fn law_status_value_roundtrip(x: Status)
    ensures
        Status::accepts(ValueView::Dict(x.pushed(Map::empty()))),
        Status::converted(ValueView::Dict(x.pushed(Map::empty())), x),
{
    reveal_strlit("good"); reveal_strlit("bots");
    assert("good"@ != "bots"@) by { assert("good"@[0] == 'g'); assert("bots"@[0] == 'b'); }
    let l = bots_view(x.bots@)->List_0;
    assert forall|i: int| 0 <= i < l.len() implies #[trigger] Bot::accepts(l[i]) by {
        law_bot_value_roundtrip(x.bots@[i]);
    }
    assert forall|i: int| 0 <= i < l.len() implies #[trigger] Bot::converted(l[i], x.bots@[i]) by {
        law_bot_value_roundtrip(x.bots@[i]);
    }
    assert(list_converted::<Bot>(bots_view(x.bots@), x.bots@));
}

} // verus!
