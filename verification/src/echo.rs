//! Echo tags that pair an action with its response.

use vstd::prelude::*;
use crate::text::{decimal, push_decimal, push_str};
use crate::util::timestamp_nano;
use crate::assoc::KeyEq;

verus! {

/// The tag of an echo: a plain string, or the JSON text of a map.
#[derive(Debug, PartialEq, Eq, Hash)]
pub enum EchoInner {
    S(String),
    Dict(String),
}

impl EchoInner {
    /// A copy of the tag.
    pub fn duplicate(&self) -> (r: EchoInner)
        ensures
            r == *self,
    {
        match self {
            EchoInner::S(s) => EchoInner::S(s.clone()),
            EchoInner::Dict(s) => EchoInner::Dict(s.clone()),
        }
    }
}

impl Clone for EchoInner {
    fn clone(&self) -> (r: EchoInner)
        ensures
            r == *self,
    {
        self.duplicate()
    }
}

/// A copy of an optional tag.
fn duplicate_tag(t: &Option<EchoInner>) -> (r: Option<EchoInner>)
    ensures
        r == *t,
{
    match t {
        Some(x) => Some(x.duplicate()),
        None => None,
    }
}

/// An item with its optional echo tag.
#[derive(Debug, PartialEq)]
pub struct Echo<I> {
    pub inner: I,
    pub echo: Option<EchoInner>,
}

/// An optional echo tag.
#[derive(Debug, PartialEq, Eq, Hash, Default)]
pub struct EchoS(pub Option<EchoInner>);

impl Clone for EchoS {
    fn clone(&self) -> (r: EchoS)
        ensures
            r == *self,
    {
        EchoS(duplicate_tag(&self.0))
    }
}

impl<I> Echo<I> {
    /// The item and its tag.
    pub fn unpack(self) -> (r: (I, EchoS))
        ensures
            r.0 == self.inner,
            r.1.0 == self.echo,
    {
        (self.inner, EchoS(self.echo))
    }

    /// A copy of the tag.
    pub fn get_echo(&self) -> (r: EchoS)
        ensures
            r.0 == self.echo,
    {
        EchoS(duplicate_tag(&self.echo))
    }
}

/// The text of a tag made at `nanos`: the tag, `-` and the decimal
/// nanoseconds.
pub open spec fn timed_tag(tag: Seq<char>, nanos: u128) -> Seq<char> {
    tag + "-"@ + decimal(nanos as nat)
}

impl EchoS {
    /// `i` with a copy of this tag.
    pub fn pack<I>(&self, i: I) -> (r: Echo<I>)
        ensures
            r.inner == i,
            r.echo == self.0,
    {
        Echo { inner: i, echo: duplicate_tag(&self.0) }
    }

    /// The tag `tag-nanos`.
    pub fn with_time(tag: &str, nanos: u128) -> (r: EchoS)
        ensures
            r.0 matches Some(EchoInner::S(s)) && s@ == timed_tag(tag@, nanos),
    {
        proof { reveal_strlit("-"); }
        let mut s = tag.to_owned();
        push_str(&mut s, "-");
        push_decimal(&mut s, nanos);
        assert(s@ =~= timed_tag(tag@, nanos));
        EchoS(Some(EchoInner::S(s)))
    }

    /// A tag made of `tag`, `-` and the current time in nanoseconds;
    /// `None` where the clock reads a time before the epoch.
    pub fn new(tag: &str) -> (r: Option<EchoS>)
        ensures
            r matches Some(e) ==> (e.0 matches Some(EchoInner::S(s)) && exists|n: u128| s@ == #[trigger] timed_tag(tag@, n)),
    {
        match timestamp_nano() {
            Some(n) => Some(EchoS::with_time(tag, n)),
            None => None,
        }
    }
}


impl View for EchoInner {
    type V = (bool, Seq<char>);

    /// Whether the tag is a map, and its text.
    open spec fn view(&self) -> (bool, Seq<char>) {
        match *self {
            EchoInner::S(s) => (false, s@),
            EchoInner::Dict(s) => (true, s@),
        }
    }
}

impl View for EchoS {
    type V = Option<(bool, Seq<char>)>;

    open spec fn view(&self) -> Option<(bool, Seq<char>)> {
        match self.0 {
            Some(t) => Some(t@),
            None => None,
        }
    }
}

impl KeyEq for EchoS {
    fn key_eq(&self, other: &Self) -> (r: bool) {
        match (&self.0, &other.0) {
            (Some(EchoInner::S(a)), Some(EchoInner::S(b))) => crate::text::str_eq(a.as_str(), b.as_str()),
            (Some(EchoInner::Dict(a)), Some(EchoInner::Dict(b))) => crate::text::str_eq(a.as_str(), b.as_str()),
            (None, None) => true,
            _ => false,
        }
    }

    fn key_clone(&self) -> (r: Self) {
        EchoS(duplicate_tag(&self.0))
    }
}

/// The tag of the `seq`-th action sent: its decimal number.
pub fn seq_tag(seq: u64) -> (r: EchoS)
    ensures
        r.0 matches Some(EchoInner::S(s)) && s@ == decimal(seq as nat),
{
    EchoS(Some(EchoInner::S(crate::text::decimal_string(seq as u128))))
}

} // verus!
