//! The implementation-side instance of the earlier interface: its
//! running and online flags, its status, its heartbeat and its event
//! broadcaster.

use vstd::prelude::*;
use tokio::sync::broadcast::Sender;
use crate::error::{WalleError, WalleResult};

verus! {

/// Sends `event` to every receiver of `tx`.
///
/// Calls `tokio::sync::broadcast::Sender::send`; `None` where the crate
/// reports an error, which it does when no receiver is left.  Nothing is
/// stated of the number of receivers it returns.
#[verifier::external_body]
fn broadcast<E>(tx: &Sender<E>, event: E) -> Option<usize> {
    tx.send(event).ok()
}

/// The status of an instance: whether it runs and whether its bot is
/// online.
#[derive(Debug, Clone, Copy, PartialEq, Eq, Structural)]
pub struct StatusContent {
    pub good: bool,
    pub online: bool,
}

/// Whether an instance sends heartbeats, and every how many seconds
/// (zero stands for the default).
#[derive(Debug, Clone, Copy, PartialEq, Eq, Structural)]
pub struct HeartbeatConfig {
    pub enabled: bool,
    pub interval: u64,
}

/// What the heartbeat task does on one tick.
#[derive(Debug, Clone, Copy, PartialEq, Eq, Structural)]
pub enum HeartbeatStep {
    /// Send a heartbeat event, then sleep.
    Send,
    /// Sleep without sending.
    Skip,
    /// The instance stopped; the task ends.
    Stop,
}

/// An implementation-side instance with events `E`, action handler `H`
/// and protocol version `V`.
#[verifier::reject_recursive_types(E)]
pub struct CustomOneBot<E, H, const V: u8> {
    pub implt: String,
    pub platform: String,
    pub self_id: String,
    pub heartbeat: HeartbeatConfig,
    pub broadcaster: Sender<E>,
    pub action_handler: H,
    /// Whether the instance runs.
    pub running: bool,
    /// Whether its bot is online.
    pub online: bool,
}

impl<E, H, const V: u8> CustomOneBot<E, H, V> {
    /// Whether the instance runs.
    pub open spec fn spec_running(&self) -> bool {
        self.running
    }

    /// Whether its bot is online.
    pub open spec fn spec_online(&self) -> bool {
        self.online
    }

    /// A stopped instance whose bot is offline; `broadcaster` carries its
    /// events.
    pub fn new(
        implt: &str,
        platform: &str,
        self_id: &str,
        heartbeat: HeartbeatConfig,
        action_handler: H,
        broadcaster: Sender<E>,
    ) -> (r: CustomOneBot<E, H, V>)
        ensures
            r.implt@ == implt@,
            r.platform@ == platform@,
            r.self_id@ == self_id@,
            r.heartbeat == heartbeat,
            r.action_handler == action_handler,
            r.broadcaster == broadcaster,
            !r.spec_running(),
            !r.spec_online(),
    {
        CustomOneBot {
            implt: implt.to_owned(),
            platform: platform.to_owned(),
            self_id: self_id.to_owned(),
            heartbeat,
            broadcaster,
            action_handler,
            running: false,
            online: false,
        }
    }

    /// The protocol version.
    pub fn onebot_version() -> (r: u8)
        ensures
            r == V,
    {
        V
    }

    /// The id of the instance's bot.
    pub fn get_self_id(&self) -> (r: String)
        ensures
            r@ == self.self_id@,
    {
        self.self_id.clone()
    }

    /// The status: good while it runs, with the bot's online flag.
    pub fn get_status(&self) -> (r: StatusContent)
        ensures
            r == (StatusContent { good: self.spec_running(), online: self.spec_online() }),
    {
        StatusContent { good: self.running, online: self.online }
    }

    /// Whether the instance has stopped.
    pub fn is_shutdown(&self) -> (r: bool)
        ensures
            r == !self.spec_running(),
    {
        !self.running
    }

    /// Whether the instance runs.
    pub fn is_running(&self) -> (r: bool)
        ensures
            r == self.spec_running(),
    {
        self.running
    }

    /// Marks the bot online or offline.
    pub fn set_online(&mut self, online: bool)
        ensures
            final(self).spec_online() == online,
            final(self).spec_running() == old(self).spec_running(),
            final(self).self_id == old(self).self_id,
            final(self).heartbeat == old(self).heartbeat,
    {
        self.online = online;
    }

    /// Stops the instance.
    pub fn shutdown(&mut self)
        ensures
            !final(self).spec_running(),
            final(self).spec_online() == old(self).spec_online(),
            final(self).self_id == old(self).self_id,
            final(self).heartbeat == old(self).heartbeat,
    {
        self.running = false;
    }

    /// Marks the instance as running.
    pub fn set_running(&mut self)
        ensures
            final(self).spec_running(),
            final(self).spec_online() == old(self).spec_online(),
            final(self).self_id == old(self).self_id,
            final(self).heartbeat == old(self).heartbeat,
    {
        self.running = true;
    }

    /// The check before running: an instance that already runs cannot
    /// run again.
    pub fn check_run(&self) -> (r: WalleResult<()>)
        ensures
            r is Ok == !self.spec_running(),
            r matches Err(e) ==> e == WalleError::AlreadyRunning,
    {
        if self.running {
            Err(WalleError::AlreadyRunning)
        } else {
            Ok(())
        }
    }

    /// The heartbeat interval in seconds where heartbeats are enabled: the
    /// configured one, or 4 where it is zero.
    pub fn heartbeat_interval(&self) -> (r: Option<u64>)
        ensures
            r == (if self.heartbeat.enabled {
                Some(if self.heartbeat.interval == 0 { 4u64 } else { self.heartbeat.interval })
            } else {
                None
            }),
    {
        if self.heartbeat.enabled {
            if self.heartbeat.interval == 0 { Some(4) } else { Some(self.heartbeat.interval) }
        } else {
            None
        }
    }

    /// One tick of the heartbeat task: it ends once the instance stopped,
    /// and sends only while some websocket connection is open.
    pub fn heartbeat_step(&self, has_connections: bool) -> (r: HeartbeatStep)
        ensures
            r == (if !self.spec_running() {
                HeartbeatStep::Stop
            } else if has_connections {
                HeartbeatStep::Send
            } else {
                HeartbeatStep::Skip
            }),
    {
        if !self.running {
            HeartbeatStep::Stop
        } else if has_connections {
            HeartbeatStep::Send
        } else {
            HeartbeatStep::Skip
        }
    }

    /// Sends an event to every receiver; an error where none is left.
    pub fn send_event(&self, event: E) -> (r: Result<usize, &'static str>)
        ensures
            r matches Err(m) ==> m@ == "there is no event receiver can receive the event yet"@,
    {
        proof { reveal_strlit("there is no event receiver can receive the event yet"); }
        match broadcast(&self.broadcaster, event) {
            Some(n) => Ok(n),
            None => Err("there is no event receiver can receive the event yet"),
        }
    }
}

/// Events that can be built as heartbeats of an instance.
pub trait HeartbeatBuild: Sized {
    fn build_heartbeat<H, const V: u8>(ob: &CustomOneBot<Self, H, V>, interval: u32) -> Self;
}

} // verus!
