//! How a hub presents the bots behind it.

use vstd::prelude::*;

verus! {

/// How a hub unites the bots behind it.
#[derive(Debug)]
pub enum UnionMode {
    /// A plain forwarding node.
    Forward,
    /// All bots act as one bot.
    Union { bot_id: String },
    /// The bots take turns.
    Round { bot_id: String },
    /// One main bot and its helpers.
    Main { bot_id: String, main: String },
}

impl UnionMode {
    /// The id of the united bot; empty for a forwarding node.
    pub fn bot_id(&self) -> (r: String)
        ensures
            r@ == (match *self {
                UnionMode::Forward => Seq::<char>::empty(),
                UnionMode::Union { bot_id } => bot_id@,
                UnionMode::Round { bot_id } => bot_id@,
                UnionMode::Main { bot_id, .. } => bot_id@,
            }),
    {
        match self {
            UnionMode::Union { bot_id } => bot_id.clone(),
            UnionMode::Round { bot_id } => bot_id.clone(),
            UnionMode::Main { bot_id, .. } => bot_id.clone(),
            UnionMode::Forward => String::new(),
        }
    }
}

impl Default for UnionMode {
    fn default() -> (r: UnionMode)
        ensures
            r matches UnionMode::Union { bot_id } && bot_id@ == "walle-hub"@,
    {
        proof { reveal_strlit("walle-hub"); }
        UnionMode::Union { bot_id: "walle-hub".to_owned() }
    }
}

/// A bot behind a hub, speaking one of the two protocol versions.
pub enum Bot<B11, B12> {
    V11(B11),
    V12(B12),
}

/// An action addressed to an actor, with the type of its response.
pub struct Action<A, R> {
    pub inner: A,
    pub result: std::marker::PhantomData<R>,
}

impl<A, R> Action<A, R> {
    /// The action `inner`.
    pub fn new(inner: A) -> (r: Action<A, R>)
        ensures
            r.inner == inner,
    {
        Action { inner, result: std::marker::PhantomData }
    }
}

} // verus!
