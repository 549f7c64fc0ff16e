//! Small shared items: clocks, ids, content types and common traits.

use vstd::prelude::*;
use std::sync::Arc;
use std::time::{Duration, SystemTime};
use crate::error::{WalleError, WalleResult};
use crate::structs::Selft;
use crate::text::str_eq;

verus! {

#[verifier::external_type_specification]
#[verifier::external_body]
pub struct ExSystemTime(SystemTime);

/// The current time of the system clock.
///
/// Calls `SystemTime::now`; nothing is stated of the result.
#[verifier::external_body]
fn system_now() -> SystemTime {
    SystemTime::now()
}

/// The time elapsed from the Unix epoch to `t`.
///
/// Calls `SystemTime::duration_since` with `UNIX_EPOCH`; `None` where `t`
/// is before the epoch.  Nothing is stated of the duration.
#[verifier::external_body]
fn since_epoch(t: &SystemTime) -> Option<Duration> {
    t.duration_since(std::time::UNIX_EPOCH).ok()
}

/// Calls `Duration::as_nanos`: the whole nanoseconds of `d`.
#[verifier::external_body]
fn duration_nanos(d: &Duration) -> u128 {
    d.as_nanos()
}

/// Calls `Duration::as_secs`: the whole seconds of `d`.
#[verifier::external_body]
fn duration_secs(d: &Duration) -> u64 {
    d.as_secs()
}

/// Nanoseconds since the Unix epoch by the system clock; `None` where the
/// clock reads a time before the epoch.
pub fn timestamp_nano() -> Option<u128> {
    let now = system_now();
    match since_epoch(&now) {
        Some(d) => Some(duration_nanos(&d)),
        None => None,
    }
}

/// Seconds since the Unix epoch by the system clock; `None` where the
/// clock reads a time before the epoch.
pub fn timestamp() -> Option<u64> {
    let now = system_now();
    match since_epoch(&now) {
        Some(d) => Some(duration_secs(&d)),
        None => None,
    }
}

/// The lower-case hexadecimal digit of `d < 16`.
pub open spec fn hex_char(d: nat) -> char {
    if d < 10 { crate::text::digit_char(d) }
    else if d == 10 { 'a' }
    else if d == 11 { 'b' }
    else if d == 12 { 'c' }
    else if d == 13 { 'd' }
    else if d == 14 { 'e' }
    else { 'f' }
}

/// The `k` lowest hexadecimal digits of `n`, most significant first.
pub open spec fn hex_digits(n: nat, k: nat) -> Seq<char>
    decreases k,
{
    if k == 0 {
        Seq::empty()
    } else {
        hex_digits(n / 16, (k - 1) as nat).push(hex_char(n % 16))
    }
}

/// The hyphenated form of a 128-bit id: its 32 hexadecimal digits, most
/// significant first, in groups of 8, 4, 4, 4 and 12 joined by `-`.
pub open spec fn uuid_text(n: u128) -> Seq<char> {
    let h = hex_digits(n as nat, 32);
    h.subrange(0, 8) + "-"@ + h.subrange(8, 12) + "-"@ + h.subrange(12, 16) + "-"@
        + h.subrange(16, 20) + "-"@ + h.subrange(20, 32)
}

/// The hyphenated lower-case text of the UUID whose bits are `n`.
///
/// Calls `uuid::Uuid::from_u128` and the `Display` impl of `Uuid`.  The
/// crate builds the UUID from the big-endian bytes of `n` and displays it
/// as 32 lower-case hexadecimal digits in groups of 8-4-4-4-12.
#[verifier::external_body]
fn uuid_hyphenated(n: u128) -> (r: String)
    ensures
        r@ == uuid_text(n),
{
    uuid::Uuid::from_u128(n).to_string()
}

/// The UUID whose bits are `nanos`, as text.
pub fn uuid_at(nanos: u128) -> (r: String)
    ensures
        r@ == uuid_text(nanos),
{
    uuid_hyphenated(nanos)
}

/// A UUID made from the current time in nanoseconds, as text; `None`
/// where the clock reads a time before the epoch.
pub fn new_uuid() -> (r: Option<String>)
    ensures
        r matches Some(s) ==> exists|n: u128| s@ == uuid_text(n),
{
    match timestamp_nano() {
        Some(n) => Some(uuid_at(n)),
        None => None,
    }
}

/// The data encodings of the protocol.
#[derive(Debug, Clone, Copy, PartialEq, Eq, Structural)]
pub enum ContentType {
    Json,
    MsgPack,
}

impl ContentType {
    /// The content type named by a MIME type, if it is one of the two.
    pub fn new(s: &str) -> (r: Option<ContentType>)
        ensures
            r == (if s@ == "application/json"@ {
                Some(ContentType::Json)
            } else if s@ == "application/msgpack"@ {
                Some(ContentType::MsgPack)
            } else {
                None
            }),
    {
        if str_eq(s, "application/json") {
            Some(ContentType::Json)
        } else if str_eq(s, "application/msgpack") {
            Some(ContentType::MsgPack)
        } else {
            None
        }
    }

    /// The MIME type of the content type.
    pub fn to_string(&self) -> (r: String)
        ensures
            r@ == (match *self {
                ContentType::Json => "application/json"@,
                ContentType::MsgPack => "application/msgpack"@,
            }),
    {
        match self {
            ContentType::Json => "application/json".to_owned(),
            ContentType::MsgPack => "application/msgpack".to_owned(),
        }
    }
}

/// Types that carry the identity of a bot.
pub trait GetSelf: Sized {
    fn get_self(&self) -> Selft;
}

/// Events that carry the id of their bot.
pub trait SelfId: Sized {
    fn self_id(&self) -> String;
}

/// Events that carry the id of their bot.
pub trait BasicEvent: Sized {
    fn self_id(&self) -> String;
}

/// Types built from a standard type `S`.
pub trait FromStandard<S>: Sized {
    fn from_standard(standard: S) -> Self;
}

/// Borrowing conversions that may fail.
pub trait TryAsRef<'a, T> {
    /// Whether the value can be borrowed as a `T`.
    spec fn as_ref_accepts(&self) -> bool;

    /// `x` is what borrowing the value gives.
    spec fn as_ref_gives(&self, x: T) -> bool;

    /// `e` is the error of borrowing the value.
    spec fn as_ref_rejects(&self, e: WalleError) -> bool;

    fn _try_as_ref(&'a self) -> (r: WalleResult<T>)
        ensures
            match r {
                Ok(x) => self.as_ref_accepts() && self.as_ref_gives(x),
                Err(e) => !self.as_ref_accepts() && self.as_ref_rejects(e),
            };
}

/// Mutably borrowing conversions that may fail.
pub trait TryAsMut<'a, T> {
    /// Whether the value can be borrowed mutably as a `T`.
    spec fn as_mut_accepts(&self) -> bool;

    /// `x` is what borrowing the value mutably gives, read at the time of
    /// the call.
    spec fn as_mut_gives(&self, x: T) -> bool;

    /// `e` is the error of borrowing the value mutably.
    spec fn as_mut_rejects(&self, e: WalleError) -> bool;

    fn _try_as_mut(&'a mut self) -> (r: WalleResult<T>)
        ensures
            match r {
                Ok(x) => old(self).as_mut_accepts() && old(self).as_mut_gives(x),
                Err(e) => !old(self).as_mut_accepts() && old(self).as_mut_rejects(e),
            };
}

/// Types that can be shared between tasks for the whole run.
pub trait Static {}

/// An empty structure, for an empty map.
#[derive(Debug, Clone, Default, PartialEq, Eq)]
pub struct EmptyContent {}

/// Hooks an application can run when a connection opens or closes.
pub trait AppHooks {
    fn on_ws_connect(&self) {
    }

    fn on_ws_disconnect(&self) {
    }
}

/// The hooks that do nothing.
pub struct DefaultHooks;

impl AppHooks for DefaultHooks {
}

impl DefaultHooks {
    /// The hooks in a shared pointer.
    pub fn arc(self) -> (r: Arc<DefaultHooks>)
        ensures
            *r == self,
    {
        Arc::new(self)
    }
}

/// The default handler: answers a version and nothing else.
pub struct DefaultHandler;

impl DefaultHandler {
    /// The handler in a shared pointer.
    pub fn arc() -> (r: Arc<DefaultHandler>)
        ensures
            *r == DefaultHandler,
    {
        Arc::new(DefaultHandler)
    }
}

} // verus!
