//! The life cycle of a OneBot instance and the application side of a
//! connection.

use vstd::prelude::*;
use tokio::sync::broadcast::{Receiver, Sender};
use crate::assoc::AssocMap;
use crate::bot_map::BotMap;
use crate::echo::{EchoInner, EchoS, seq_tag};
use crate::assoc::KeyEq;
use crate::error::{WalleError, WalleResult};
use crate::structs::{Bot, Selft, Status, Version};
use crate::text::{decimal, str_eq};

verus! {

#[verifier::external_type_specification]
#[verifier::external_body]
#[verifier::reject_recursive_types(T)]
pub struct ExSender<T>(Sender<T>);

#[verifier::external_type_specification]
#[verifier::external_body]
#[verifier::reject_recursive_types(T)]
pub struct ExReceiver<T>(Receiver<T>);

/// A new shutdown signal.
///
/// Calls `tokio::sync::broadcast::channel(1)` and keeps the sender; the
/// capacity 1 is one the crate accepts.
#[verifier::external_body]
fn new_signal() -> Sender<()> {
    tokio::sync::broadcast::channel(1).0
}

/// A receiver of the shutdown signal.
///
/// Calls `Sender::subscribe`.
#[verifier::external_body]
fn subscribe(tx: &Sender<()>) -> Receiver<()> {
    tx.subscribe()
}

/// A OneBot instance: its action and event handlers, its version and,
/// while it runs, its shutdown signal.
pub struct OneBot<AH, EH> {
    pub action_handler: AH,
    pub event_handler: EH,
    pub signal: Option<Sender<()>>,
    pub version: Version,
}

impl<AH, EH> OneBot<AH, EH> {
    /// Whether the instance runs.
    pub open spec fn started(&self) -> bool {
        self.signal is Some
    }

    /// A stopped instance.
    pub fn new(action_handler: AH, event_handler: EH, version: Version) -> (r: OneBot<AH, EH>)
        ensures
            !r.started(),
            r.action_handler == action_handler,
            r.event_handler == event_handler,
            r.version == version,
    {
        OneBot { action_handler, event_handler, signal: None, version }
    }

    /// Marks the instance as running; `false` where it already ran.
    pub fn set_signal(&mut self) -> (r: bool)
        ensures
            r == !old(self).started(),
            final(self).started(),
            old(self).started() ==> final(self).signal == old(self).signal,
            final(self).action_handler == old(self).action_handler,
            final(self).event_handler == old(self).event_handler,
            final(self).version == old(self).version,
    {
        if self.signal.is_none() {
            self.signal = Some(new_signal());
            true
        } else {
            false
        }
    }

    /// Whether the instance runs.
    pub fn is_started(&self) -> (r: bool)
        ensures
            r == self.started(),
    {
        self.signal.is_some()
    }

    /// A receiver of the shutdown signal of a running instance.
    pub fn get_signal_rx(&self) -> (r: WalleResult<Receiver<()>>)
        ensures
            r is Ok == self.started(),
            r matches Err(e) ==> e == WalleError::NotStarted,
    {
        match &self.signal {
            Some(tx) => Ok(subscribe(tx)),
            None => Err(WalleError::NotStarted),
        }
    }

    /// The first step of starting: an instance that already runs cannot
    /// start again.
    pub fn begin_start(&mut self) -> (r: WalleResult<()>)
        ensures
            r is Ok == !old(self).started(),
            r matches Err(e) ==> e == WalleError::AlreadyStarted,
            final(self).started(),
            old(self).started() ==> final(self).signal == old(self).signal,
            final(self).action_handler == old(self).action_handler,
            final(self).event_handler == old(self).event_handler,
            final(self).version == old(self).version,
    {
        if !self.set_signal() {
            return Err(WalleError::AlreadyStarted);
        }
        Ok(())
    }

    /// The first step of shutting down: takes the shutdown signal of a
    /// running instance, which is then stopped.
    pub fn take_signal(&mut self) -> (r: WalleResult<Sender<()>>)
        ensures
            r is Ok == old(self).started(),
            r matches Err(e) ==> e == WalleError::NotStarted,
            r matches Ok(tx) ==> old(self).signal == Some(tx),
            !final(self).started(),
            final(self).action_handler == old(self).action_handler,
            final(self).event_handler == old(self).event_handler,
            final(self).version == old(self).version,
    {
        match self.signal.take() {
            Some(tx) => Ok(tx),
            None => Err(WalleError::NotStarted),
        }
    }

    /// The status of the instance: good while it runs, with the bots of
    /// its registry, if it has one.
    pub fn get_status<T>(&self, bots: Option<&BotMap<T>>) -> (r: Status)
        ensures
            r.good == self.started(),
            bots is None ==> r.bots@.len() == 0,
            bots matches Some(m) ==> statuses_of(m, r.bots@),
    {
        let good = self.is_started();
        let list = match bots {
            Some(m) => m.bot_statuses(),
            None => Vec::new(),
        };
        Status { good, bots: list }
    }

    /// Whether a bot of the registry `bots` is served by a connection.
    pub fn contains_bot<T>(&self, bots: Option<&BotMap<T>>, selft: &Selft) -> (r: bool)
        ensures
            bots is None ==> !r,
            bots matches Some(m) ==> r == (m@.bots.contains_key(selft@) && m@.bots[selft@].1.len() > 0),
    {
        match bots {
            Some(m) => m.contains_bot(selft),
            None => false,
        }
    }
}

/// `list` holds every bot of the registry once, with whether it is
/// served by some connection.
pub open spec fn statuses_of<T>(m: &BotMap<T>, list: Seq<Bot>) -> bool {
    &&& forall|i: int| 0 <= i < list.len() ==> m@.bots.contains_key(#[trigger] list[i].selft@)
        && list[i].online == (m@.bots[list[i].selft@].1.len() > 0)
    &&& forall|k: (Seq<char>, Seq<char>)| #[trigger] m@.bots.contains_key(k) ==> exists|i: int| 0 <= i < list.len() && #[trigger] list[i].selft@ == k
    &&& forall|i: int, j: int| 0 <= i < list.len() && 0 <= j < list.len() && i != j ==> #[trigger] list[i].selft@ != #[trigger] list[j].selft@
}

/// The application side of connections: the registry of bots, the
/// counter of echo tags, the calls waiting for their responses (`R` is
/// where a response goes) and whether meta events are held back.
pub struct AppOBC<T, R> {
    pub block_meta: bool,
    pub seq: u64,
    pub bots: BotMap<T>,
    pub echos: AssocMap<EchoS, R>,
}

impl<T, R> AppOBC<T, R> {
    /// Whether meta events are held back.
    pub open spec fn blocks_meta(&self) -> bool {
        self.block_meta
    }

    /// The number of the next echo tag.
    pub open spec fn next_seq(&self) -> u64 {
        self.seq
    }

    /// A new application side: meta events held back, tags from 0 and no
    /// connection.
    pub fn new() -> (r: AppOBC<T, R>)
        ensures
            r.blocks_meta(),
            r.next_seq() == 0,
            r.bots.wf(),
            r.bots@.conn_seq == 0,
            r.bots@.bots.dom().len() == 0,
            r.bots@.conns.dom().len() == 0,
            r.echos@ == Map::<Option<(bool, Seq<char>)>, R>::empty(),
    {
        let bots = BotMap::new();
        AppOBC { block_meta: true, seq: 0, bots, echos: AssocMap::new() }
    }

    /// Opens a connection for one event pushed by bot `selft` of the
    /// implementation `implt`, with the sender `tx` of the action that
    /// answers it; the bot is reported online on it.
    pub fn open_delivery(&mut self, selft: Selft, implt: &str, tx: T) -> (seq: usize)
        requires
            old(self).bots@.conn_seq < usize::MAX,
        ensures
            seq == old(self).bots@.conn_seq,
            final(self).bots.wf(),
            final(self).bots@ == old(self).bots@.after_connect(tx).after_update(seq, seq![(selft@, true)], implt@),
            final(self).seq == old(self).seq,
            final(self).echos == old(self).echos,
            final(self).block_meta == old(self).block_meta,
    {
        let seq = self.bots.new_connect(tx);
        let mut bots: Vec<Bot> = Vec::new();
        let ghost k = selft@;
        bots.push(Bot { selft, online: true });
        assert(crate::bot_map::bot_items(bots@) =~= seq![(k, true)]);
        self.bots.connect_update(seq, bots, implt);
        seq
    }

    /// Closes a connection opened for one event: the call tagged `tag`
    /// stops waiting and the connection is closed.
    pub fn close_delivery(&mut self, seq: usize, tag: &EchoS)
        ensures
            final(self).bots.wf(),
            final(self).bots@ == old(self).bots@.after_close(seq),
            final(self).echos@ == old(self).echos@.remove(tag@),
            final(self).seq == old(self).seq,
            final(self).block_meta == old(self).block_meta,
    {
        let _ = self.echos.remove(tag);
        self.bots.connect_closs(seq);
    }

    /// The call waiting for the response tagged `tag`, which stops
    /// waiting.
    pub fn deliver(&mut self, tag: &EchoS) -> (r: Option<R>)
        ensures
            r is Some == old(self).echos@.contains_key(tag@),
            r matches Some(x) ==> x == old(self).echos@[tag@],
            final(self).echos@ == old(self).echos@.remove(tag@),
            final(self).seq == old(self).seq,
            final(self).block_meta == old(self).block_meta,
            final(self).bots == old(self).bots,
    {
        self.echos.remove(tag)
    }

    /// Sets whether meta events are held back.
    pub fn block_meta_event(&mut self, b: bool)
        ensures
            final(self).blocks_meta() == b,
            final(self).next_seq() == old(self).next_seq(),
            final(self).bots == old(self).bots,
            final(self).echos == old(self).echos,
    {
        self.block_meta = b;
    }

    /// The next echo tag: the decimal number of the counter, which then
    /// advances (wrapping).
    pub fn next_seg(&mut self) -> (r: EchoS)
        ensures
            r.0 matches Some(EchoInner::S(s)) && s@ == decimal(old(self).next_seq() as nat),
            final(self).next_seq() == (if old(self).next_seq() == u64::MAX { 0 } else { (old(self).next_seq() + 1) as u64 }),
            final(self).blocks_meta() == old(self).blocks_meta(),
            final(self).bots == old(self).bots,
            final(self).echos == old(self).echos,
    {
        let r = seq_tag(self.seq);
        self.seq = self.seq.wrapping_add(1);
        r
    }

    /// Whether an event of type `event_ty` goes on to the handler: a meta
    /// event is held back while meta events are blocked.
    pub fn check_event(&self, event_ty: &str) -> (r: WalleResult<()>)
        ensures
            r is Err == (self.blocks_meta() && event_ty@ == "meta"@),
            r matches Err(e) ==> (e matches WalleError::Other(m) && m@ == "blocked"@),
    {
        proof { reveal_strlit("blocked"); }
        if self.block_meta && str_eq(event_ty, "meta") {
            Err(WalleError::Other("blocked".to_owned()))
        } else {
            Ok(())
        }
    }

    /// Whether bot `selft` is known to the registry.
    pub fn contains_bot(&self, selft: &Selft) -> (r: bool)
        ensures
            r == self.bots@.bots.contains_key(selft@),
    {
        self.bots.contains_bot(selft)
    }

    /// The status of the application side: good, with every known bot.
    pub fn gen_status(&self) -> (r: Status)
        ensures
            r.good,
            statuses_of(&self.bots, r.bots@),
    {
        Status { good: true, bots: self.bots.bot_statuses() }
    }
}

impl<T: Clone, R> AppOBC<T, R> {
    /// The action sender to use for bot `selft`: that of the first
    /// connection that serves it; an error where none does.
    pub fn route_action(&self, selft: &Selft) -> (r: WalleResult<T>)
        ensures
            r is Ok == self.bots@.bots.contains_key(selft@),
            r matches Ok(tx) ==> cloned(self.bots@.conns[self.bots@.bots[selft@].1[0]].0, tx),
            r matches Err(e) ==> e == WalleError::BotNotExist,
    {
        match self.bots.get_bot_tx(selft) {
            Some(txs) => {
                let mut txs = txs;
                let tx = txs.remove(0);
                Ok(tx)
            },
            None => Err(WalleError::BotNotExist),
        }
    }

    /// Starts a call to bot `selft`: where a connection serves it, the
    /// call gets the next echo tag and waits for its response in
    /// `reply`; the result is the action sender to use and the tag.  An
    /// unknown bot changes nothing.
    pub fn begin_call(&mut self, selft: &Selft, reply: R) -> (r: WalleResult<(T, EchoS)>)
        ensures
            r is Ok == old(self).bots@.bots.contains_key(selft@),
            r matches Err(e) ==> e == WalleError::BotNotExist && final(self).seq == old(self).seq
                && final(self).echos@ == old(self).echos@,
            r matches Ok((tx, tag)) ==> cloned(old(self).bots@.conns[old(self).bots@.bots[selft@].1[0]].0, tx)
                && tag@ == Some((false, decimal(old(self).seq as nat)))
                && final(self).seq == (if old(self).seq == u64::MAX { 0 } else { (old(self).seq + 1) as u64 })
                && final(self).echos@ == old(self).echos@.insert(tag@, reply),
            final(self).bots == old(self).bots,
            final(self).block_meta == old(self).block_meta,
    {
        let tx = match self.route_action(selft) {
            Ok(tx) => tx,
            Err(e) => return Err(e),
        };
        let tag = self.next_seg();
        let _ = self.echos.insert(tag.key_clone(), reply);
        Ok((tx, tag))
    }
}

/// A call that has begun is answered by the response with its tag, and
/// by no other: delivering the tag gives its reply back and leaves the
/// other waiting calls as they were.
pub proof fn law_call_then_deliver<R>(echos: Map<Option<(bool, Seq<char>)>, R>, tag: Option<(bool, Seq<char>)>, reply: R)
    ensures
        echos.insert(tag, reply).contains_key(tag),
        echos.insert(tag, reply)[tag] == reply,
        echos.insert(tag, reply).remove(tag) == echos.remove(tag),
{
    assert(echos.insert(tag, reply).remove(tag) =~= echos.remove(tag));
}


/// Two echo tags taken one after the other from the same counter differ.
pub proof fn law_consecutive_tags_differ(seq: u64)
    ensures
        decimal(seq as nat) != decimal((if seq == u64::MAX { 0 } else { (seq + 1) as u64 }) as nat),
{
    let next: u64 = if seq == u64::MAX { 0 } else { (seq + 1) as u64 };
    if decimal(seq as nat) == decimal(next as nat) {
        crate::text::law_decimal_injective(seq as nat, next as nat);
    }
}
} // verus!

verus! {

/// What the webhook endpoint of an application learns while it answers
/// one request that passed its gate.
pub enum WebhookEvent<T> {
    /// The body did not decode as an event.
    Undecodable,
    /// The body decoded as an event of bot `selft`, pushed by the
    /// implementation `implt`; `tx` receives the action that answers it.
    Decoded { selft: Selft, implt: String, tx: T },
    /// The action answering the event pushed on connection `seq` arrived,
    /// tagged `tag` and encoded as `body`.
    ActionArrived { seq: usize, tag: EchoS, body: String },
    /// No action arrived in time.
    TimedOut,
}

/// What the webhook endpoint does next.
#[derive(Debug, PartialEq, Eq)]
pub enum WebhookAction {
    /// Answer the request with status 200 and this body.
    Respond(String),
    /// Hand the event to the handlers, then wait for the answering action
    /// on connection `seq`.
    HandleEvent { seq: usize },
}

impl<T, R> AppOBC<T, R> {
    /// Moves a webhook request admitted by `webhook_gate` on by one event.
    /// A body that does not decode is answered with an empty body and
    /// changes nothing; a decoded event opens a connection on which its
    /// bot is online and goes to the handlers; the answering action closes
    /// that connection, stops the wait for its tag and is the answer; a
    /// timeout is answered with an empty body and changes nothing.
    pub fn webhook_step(&mut self, event: WebhookEvent<T>) -> (r: WebhookAction)
        requires
            event is Decoded ==> old(self).bots@.conn_seq < usize::MAX,
        ensures
            final(self).seq == old(self).seq,
            final(self).block_meta == old(self).block_meta,
            match event {
                WebhookEvent::Undecodable => (r matches WebhookAction::Respond(b) && b@ == Seq::<char>::empty())
                    && final(self).bots@ == old(self).bots@ && final(self).echos@ == old(self).echos@,
                WebhookEvent::Decoded { selft, implt, tx } => r == WebhookAction::HandleEvent { seq: old(self).bots@.conn_seq as usize }
                    && final(self).bots@ == old(self).bots@.after_connect(tx).after_update(
                        old(self).bots@.conn_seq as usize, seq![(selft@, true)], implt@)
                    && final(self).echos@ == old(self).echos@,
                WebhookEvent::ActionArrived { seq, tag, body } => (r matches WebhookAction::Respond(b) && b@ == body@)
                    && final(self).bots@ == old(self).bots@.after_close(seq)
                    && final(self).echos@ == old(self).echos@.remove(tag@),
                WebhookEvent::TimedOut => (r matches WebhookAction::Respond(b) && b@ == Seq::<char>::empty())
                    && final(self).bots@ == old(self).bots@ && final(self).echos@ == old(self).echos@,
            },
    {
        match event {
            WebhookEvent::Undecodable => WebhookAction::Respond(String::new()),
            WebhookEvent::Decoded { selft, implt, tx } => {
                let seq = self.open_delivery(selft, implt.as_str(), tx);
                WebhookAction::HandleEvent { seq }
            },
            WebhookEvent::ActionArrived { seq, tag, body } => {
                self.close_delivery(seq, &tag);
                WebhookAction::Respond(body)
            },
            WebhookEvent::TimedOut => WebhookAction::Respond(String::new()),
        }
    }
}

} // verus!
