//! Verified core of a OneBot v12 protocol library: the dynamic `Value`
//! model, message segments, action responses, echo tags and the
//! bookkeeping of connected bots.

pub mod error;
pub mod resp;
pub mod resp_error;
pub mod text;
pub mod value;
pub mod value_eq;
pub mod naming;
pub mod assoc;
pub mod structs;
pub mod bot_map;
pub mod convert;
pub mod segment;
pub mod segments_mut;
pub mod flow;
pub mod serve;
pub mod custom;
pub mod util;
pub mod echo;
pub mod obc;
pub mod onebot;
pub mod hub;
pub mod v11;
pub mod gate;
pub mod conn;

use vstd::prelude::*;

verus! {

/// Log target name of the library.
pub const WALLE_CORE: &'static str = "Walle-core";

} // verus!
