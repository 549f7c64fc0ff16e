//! The library's error type.

use vstd::prelude::*;
use crate::resp::RespError;
use crate::text::{decimal, push_decimal, push_str, spec_str_debug, str_debug};

verus! {

/// Errors of the library.
#[derive(Debug, Clone, PartialEq)]
pub enum WalleError {
    /// A value was not of the expected type: (expected type, found kind).
    ValueTypeNotMatch(String, String),
    /// A value was found where a declared type was expected: (declared, found).
    DeclareNotMatch(String, String),
    /// A map lacked a required key.
    MapMissedKey(String),
    /// A map value had the wrong type: (expected type, found).
    MapValueTypeMismatch(String, String),
    /// A string that should hold base64 did not.
    IllegalBase64(String),
    /// A failed action response.
    RespError(RespError),
    /// The instance was already started.
    AlreadyStarted,
    /// The instance was not started.
    NotStarted,
    /// The instance was already running.
    AlreadyRunning,
    /// The instance was not running.
    NotRunning,
    /// No bot with the requested identity is connected.
    BotNotExist,
    /// Any other error, with its message.
    Other(String),
}

/// Result type of the library.
pub type WalleResult<T> = Result<T, WalleError>;

/// A string as it is shown inside an error: its `Debug` text.
pub open spec fn quoted(s: Seq<char>) -> Seq<char> {
    spec_str_debug(s)
}

/// The text of a variant with one string field.
pub open spec fn one_field(name: Seq<char>, a: Seq<char>) -> Seq<char> {
    name + "("@ + quoted(a) + ")"@
}

/// The text of a variant with two string fields.
pub open spec fn two_fields(name: Seq<char>, a: Seq<char>, b: Seq<char>) -> Seq<char> {
    name + "("@ + quoted(a) + ", "@ + quoted(b) + ")"@
}

/// The text of a failed response: `RespError[retcode]: message`.
pub open spec fn resp_error_text(retcode: u32, message: Seq<char>) -> Seq<char> {
    "RespError["@ + decimal(retcode as nat) + "]: "@ + message
}

/// The text that describes an error: the variant's name and its fields,
/// strings as `Debug` shows them.
pub open spec fn error_text(e: WalleError) -> Seq<char> {
    match e {
        WalleError::ValueTypeNotMatch(a, b) => two_fields("ValueTypeNotMatch"@, a@, b@),
        WalleError::DeclareNotMatch(a, b) => two_fields("DeclareNotMatch"@, a@, b@),
        WalleError::MapMissedKey(a) => one_field("MapMissedKey"@, a@),
        WalleError::MapValueTypeMismatch(a, b) => two_fields("MapValueTypeMismatch"@, a@, b@),
        WalleError::IllegalBase64(a) => one_field("IllegalBase64"@, a@),
        WalleError::RespError(r) => "RespError("@ + resp_error_text(r.retcode, r.message@) + ")"@,
        WalleError::AlreadyStarted => "AlreadyStarted"@,
        WalleError::NotStarted => "NotStarted"@,
        WalleError::AlreadyRunning => "AlreadyRunning"@,
        WalleError::NotRunning => "NotRunning"@,
        WalleError::BotNotExist => "BotNotExist"@,
        WalleError::Other(a) => one_field("Other"@, a@),
    }
}

fn push_quoted(out: &mut String, s: &str)
    ensures
        final(out)@ == old(out)@ + quoted(s@),
{
    let d = str_debug(s);
    push_str(out, d.as_str());
}

fn one_field_text(name: &str, a: &str) -> (r: String)
    ensures
        r@ == one_field(name@, a@),
{
    proof { reveal_strlit("("); reveal_strlit(")"); }
    let mut out = String::new();
    push_str(&mut out, name);
    push_str(&mut out, "(");
    push_quoted(&mut out, a);
    push_str(&mut out, ")");
    assert(out@ =~= one_field(name@, a@));
    out
}

fn two_fields_text(name: &str, a: &str, b: &str) -> (r: String)
    ensures
        r@ == two_fields(name@, a@, b@),
{
    proof { reveal_strlit("("); reveal_strlit(")"); reveal_strlit(", "); }
    let mut out = String::new();
    push_str(&mut out, name);
    push_str(&mut out, "(");
    push_quoted(&mut out, a);
    push_str(&mut out, ", ");
    push_quoted(&mut out, b);
    push_str(&mut out, ")");
    assert(out@ =~= two_fields(name@, a@, b@));
    out
}

impl RespError {
    /// The text of the error: `RespError[retcode]: message`.
    pub fn describe(&self) -> (r: String)
        ensures
            r@ == resp_error_text(self.retcode, self.message@),
    {
        proof { reveal_strlit("RespError["); reveal_strlit("]: "); }
        let mut out = String::new();
        push_str(&mut out, "RespError[");
        push_decimal(&mut out, self.retcode as u128);
        push_str(&mut out, "]: ");
        push_str(&mut out, self.message.as_str());
        assert(out@ =~= resp_error_text(self.retcode, self.message@));
        out
    }
}

impl WalleError {
    /// The text that describes the error.
    pub fn describe(&self) -> (r: String)
        ensures
            r@ == error_text(*self),
    {
        match self {
            WalleError::ValueTypeNotMatch(a, b) => {
                proof { reveal_strlit("ValueTypeNotMatch"); }
                two_fields_text("ValueTypeNotMatch", a.as_str(), b.as_str())
            },
            WalleError::DeclareNotMatch(a, b) => {
                proof { reveal_strlit("DeclareNotMatch"); }
                two_fields_text("DeclareNotMatch", a.as_str(), b.as_str())
            },
            WalleError::MapMissedKey(a) => {
                proof { reveal_strlit("MapMissedKey"); }
                one_field_text("MapMissedKey", a.as_str())
            },
            WalleError::MapValueTypeMismatch(a, b) => {
                proof { reveal_strlit("MapValueTypeMismatch"); }
                two_fields_text("MapValueTypeMismatch", a.as_str(), b.as_str())
            },
            WalleError::IllegalBase64(a) => {
                proof { reveal_strlit("IllegalBase64"); }
                one_field_text("IllegalBase64", a.as_str())
            },
            WalleError::RespError(r) => {
                proof { reveal_strlit("RespError("); reveal_strlit(")"); }
                let mut out = "RespError(".to_owned();
                let inner = r.describe();
                push_str(&mut out, inner.as_str());
                push_str(&mut out, ")");
                assert(out@ =~= error_text(*self));
                out
            },
            WalleError::AlreadyStarted => { proof { reveal_strlit("AlreadyStarted"); } "AlreadyStarted".to_owned() },
            WalleError::NotStarted => { proof { reveal_strlit("NotStarted"); } "NotStarted".to_owned() },
            WalleError::AlreadyRunning => { proof { reveal_strlit("AlreadyRunning"); } "AlreadyRunning".to_owned() },
            WalleError::NotRunning => { proof { reveal_strlit("NotRunning"); } "NotRunning".to_owned() },
            WalleError::BotNotExist => { proof { reveal_strlit("BotNotExist"); } "BotNotExist".to_owned() },
            WalleError::Other(a) => {
                proof { reveal_strlit("Other"); }
                one_field_text("Other", a.as_str())
            },
        }
    }
}

} // verus!
