//! Action responses.

use vstd::prelude::*;
use crate::error::{WalleError, WalleResult};
use crate::text::{push_char, push_str};
use crate::value::{TryFromValue, Value, ValueView};

verus! {

/// Data of a failed action response: its return code and message.
#[derive(Debug, Clone, PartialEq)]
pub struct RespError {
    pub retcode: u32,
    pub message: String,
}

/// An action response.
#[derive(Debug, Clone, PartialEq)]
pub struct Resp {
    /// `ok` or `failed`.
    pub status: String,
    /// Zero for success.
    pub retcode: u32,
    /// The data of the response.
    pub data: Value,
    /// A human readable message; empty on success.
    pub message: String,
}

impl Resp {
    /// A successful response with `data` and an empty message.
    pub fn from_data(data: Value) -> (r: Resp)
        ensures
            r.status@ == "ok"@,
            r.retcode == 0,
            r.data@ == data@,
            r.message@ == Seq::<char>::empty(),
    {
        proof { reveal_strlit("ok"); }
        Resp { status: "ok".to_owned(), retcode: 0, data, message: String::new() }
    }

    /// A successful response with `data` and `message`.
    pub fn ok(data: Value, message: &str) -> (r: Resp)
        ensures
            r.status@ == "ok"@,
            r.retcode == 0,
            r.data@ == data@,
            r.message@ == message@,
    {
        proof { reveal_strlit("ok"); }
        Resp { status: "ok".to_owned(), retcode: 0, data, message: message.to_owned() }
    }

    /// A failed response with `retcode`, `data` and `message`.
    pub fn failed(retcode: u32, data: Value, message: &str) -> (r: Resp)
        ensures
            r.status@ == "failed"@,
            r.retcode == retcode,
            r.data@ == data@,
            r.message@ == message@,
    {
        proof { reveal_strlit("failed"); }
        Resp { status: "failed".to_owned(), retcode, data, message: message.to_owned() }
    }

    /// The failed response of an error: its code and message, with null
    /// data.
    pub fn from_error(error: RespError) -> (r: Resp)
        ensures
            r.status@ == "failed"@,
            r.retcode == error.retcode,
            r.data@ == ValueView::Null,
            r.message@ == error.message@,
    {
        proof { reveal_strlit("failed"); }
        Resp { status: "failed".to_owned(), retcode: error.retcode, data: Value::Null, message: error.message }
    }

    /// The failed response of an error, with `data`.
    pub fn from_error_data(error: RespError, data: Value) -> (r: Resp)
        ensures
            r.status@ == "failed"@,
            r.retcode == error.retcode,
            r.data@ == data@,
            r.message@ == error.message@,
    {
        proof { reveal_strlit("failed"); }
        Resp { status: "failed".to_owned(), retcode: error.retcode, data, message: error.message }
    }

    /// The data of a response with code zero, or its error.
    pub fn as_result(self) -> (r: Result<Value, RespError>)
        ensures
            match r {
                Ok(d) => self.retcode == 0 && d@ == self.data@,
                Err(e) => self.retcode != 0 && e.retcode == self.retcode && e.message@ == self.message@,
            },
    {
        if self.retcode != 0 {
            Err(RespError { retcode: self.retcode, message: self.message })
        } else {
            Ok(self.data)
        }
    }

    /// The data of a response with code zero, converted into `T`; the
    /// response's error otherwise.
    pub fn as_result_downcast<T: TryFromValue>(self) -> (r: WalleResult<T>)
        ensures
            self.retcode != 0 ==> (r matches Err(WalleError::RespError(e)) && e.retcode == self.retcode && e.message@ == self.message@),
            self.retcode == 0 ==> match r {
                Ok(x) => T::accepts(self.data@) && T::converted(self.data@, x),
                Err(e) => !T::accepts(self.data@) && T::rejected(self.data@, e),
            },
    {
        match self.as_result() {
            Ok(v) => T::try_from_value(v),
            Err(e) => Err(WalleError::RespError(e)),
        }
    }
}

/// A response's data read as a `T`.
pub struct RespValue<T>(pub T);

impl<T: TryFromValue> RespValue<T> {
    /// Reads the data of `resp`, whatever its code, as a `T`.
    pub fn try_from_resp(resp: Resp) -> (r: WalleResult<RespValue<T>>)
        ensures
            match r {
                Ok(x) => T::accepts(resp.data@) && T::converted(resp.data@, x.0),
                Err(e) => !T::accepts(resp.data@) && T::rejected(resp.data@, e),
            },
    {
        match T::try_from_value(resp.data) {
            Ok(x) => Ok(RespValue(x)),
            Err(e) => Err(e),
        }
    }
}

/// The message of an error of a kind: the kind's text, then `:` and the
/// detail where the detail is not empty.
pub open spec fn error_message(base: Seq<char>, msg: Seq<char>) -> Seq<char> {
    if msg.len() == 0 { base } else { base + ":"@ + msg }
}

/// The error of a kind with code `retcode` and text `base`, with detail
/// `msg`.
pub fn error_of_kind(retcode: u32, base: &str, msg: &str) -> (r: RespError)
    ensures
        r.retcode == retcode,
        r.message@ == error_message(base@, msg@),
{
    let mut message = base.to_owned();
    if msg.unicode_len() != 0 {
        push_char(&mut message, ':');
        push_str(&mut message, msg);
        proof { reveal_strlit(":"); }
        assert(message@ =~= base@ + ":"@ + msg@) by { reveal_strlit(":"); }
    }
    RespError { retcode, message }
}

} // verus!
