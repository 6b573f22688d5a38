use vstd::prelude::*;
use crate::config::Config;
use crate::connect::{open_channel_request, reconnect_plan, reconnect_targets};
use crate::error::Error;
use crate::event::{head_of, holds_events, Event, EventQueue};
use crate::keys::{pubkey_from_hex, sha256_of};
use crate::lifecycle::{op_outcome, tasks_for, Lifecycle, LifecycleOp, TaskSet};
use crate::payment::{
    attempt_outcome, lookup_payment, payment_info, record_outbound_payment,
    record_spontaneous_payment, PayAttempt, PaymentStore,
};
use crate::peer_store::{
    first_at, holds_peers, keys_unique, upsert, without_key, PeerInfo, PeerStore,
};
use crate::store::{BlobStore, StoreKey};
use crate::types::{PaymentHash, PaymentInfo, PaymentStatus, PublicKey};

verus! {

/// The state that a node keeps for its whole life: its configuration, the slot of its
/// runtime, its pending events, its known peers and what it knows of payments.
pub struct Node<S: BlobStore> {
    config: Config,
    lifecycle: Lifecycle,
    event_queue: EventQueue<S>,
    peer_store: PeerStore<S>,
    inbound_payments: PaymentStore,
    outbound_payments: PaymentStore,
}

impl<S: BlobStore> Node<S> {
    /// The configuration.
    pub closed spec fn spec_config(&self) -> Config {
        self.config
    }

    /// Whether the node runs.
    pub closed spec fn is_running(&self) -> bool {
        self.lifecycle.is_running()
    }

    /// The loops of the installed runtime, if the node runs.
    pub closed spec fn tasks(&self) -> Option<TaskSet> {
        self.lifecycle.tasks()
    }

    /// The pending events, the oldest first.
    pub closed spec fn pending(&self) -> Seq<Event> {
        self.event_queue.pending()
    }

    /// The known peers.
    pub closed spec fn known_peers(&self) -> Seq<PeerInfo> {
        self.peer_store.known()
    }

    /// The inbound payments, by hash.
    pub closed spec fn inbound(&self) -> Map<Seq<u8>, PaymentInfo> {
        self.inbound_payments@
    }

    /// The outbound payments, by hash.
    pub closed spec fn outbound(&self) -> Map<Seq<u8>, PaymentInfo> {
        self.outbound_payments@
    }

    /// What the store of the events holds.
    pub closed spec fn stored_events(&self) -> Map<StoreKey, Seq<u8>> {
        self.event_queue.stored()
    }

    /// What the store of the peers holds.
    pub closed spec fn stored_peers(&self) -> Map<StoreKey, Seq<u8>> {
        self.peer_store.stored()
    }

    /// The stores hold exactly the pending events and the known peers, whose keys are
    /// unique.
    pub open spec fn wf(&self) -> bool {
        &&& holds_events(self.stored_events(), self.pending())
        &&& holds_peers(self.stored_peers(), self.known_peers())
        &&& keys_unique(self.known_peers())
    }

    /// Creates a node that does not run, resuming the events and peers that the two stores
    /// hold. Fails with `PersistenceFailed` where either store holds bytes that do not
    /// decode.
    pub fn new(config: Config, event_store: S, peer_store: S) -> (r: Result<Node<S>, Error>)
        ensures
            match r {
                Ok(n) => {
                    &&& n.wf()
                    &&& !n.is_running()
                    &&& n.spec_config() == config
                    &&& holds_events(event_store.contents(), n.pending())
                    &&& holds_peers(peer_store.contents(), n.known_peers())
                    &&& keys_unique(n.known_peers())
                    &&& n.inbound().is_empty()
                    &&& n.outbound().is_empty()
                },
                Err(e) => e == Error::PersistenceFailed && ((forall|s: Seq<Event>|
                    !holds_events(event_store.contents(), s)) || (forall|s: Seq<PeerInfo>|
                    !(holds_peers(peer_store.contents(), s) && keys_unique(s)))),
            },
    {
        let event_queue = match EventQueue::restore(event_store) {
            Ok(q) => q,
            Err(e) => {
                return Err(e);
            },
        };
        let peer_store = match PeerStore::restore(peer_store) {
            Ok(d) => d,
            Err(e) => {
                return Err(e);
            },
        };
        let inbound_payments = PaymentStore::new();
        let outbound_payments = PaymentStore::new();
        proof {
            assert(inbound_payments@.is_empty());
            assert(outbound_payments@.is_empty());
        }
        Ok(
            Node {
                config,
                lifecycle: Lifecycle::new(),
                event_queue,
                peer_store,
                inbound_payments,
                outbound_payments,
            },
        )
    }

    /// Starts the node and returns the background loops to spawn: all of them, but the
    /// listener only where a listening address is configured. Fails with `AlreadyRunning`
    /// where it runs.
    pub fn start(&mut self) -> (r: Result<TaskSet, Error>)
        ensures
            match op_outcome(old(self).is_running(), LifecycleOp::Start) {
                Ok(()) => r == Ok::<TaskSet, Error>(
                    tasks_for(old(self).spec_config().listening_address is Some),
                ) && final(self).tasks() == Some(
                    tasks_for(old(self).spec_config().listening_address is Some),
                ),
                Err(e) => r == Err::<TaskSet, Error>(e) && final(self).tasks() == old(self).tasks(),
            },
            final(self).is_running(),
            final(self).spec_config() == old(self).spec_config(),
            final(self).pending() == old(self).pending(),
            final(self).known_peers() == old(self).known_peers(),
            final(self).wf() == old(self).wf(),
    {
        self.lifecycle.start(&self.config)
    }

    /// Stops the node and returns the background loops whose flags are to be signalled.
    /// Fails with `NotRunning` where it does not run.
    pub fn stop(&mut self) -> (r: Result<TaskSet, Error>)
        ensures
            match op_outcome(old(self).is_running(), LifecycleOp::Stop) {
                Ok(()) => r == Ok::<TaskSet, Error>(old(self).tasks()->Some_0),
                Err(e) => r == Err::<TaskSet, Error>(e),
            },
            !final(self).is_running(),
            final(self).tasks() is None,
            final(self).spec_config() == old(self).spec_config(),
            final(self).pending() == old(self).pending(),
            final(self).known_peers() == old(self).known_peers(),
            final(self).wf() == old(self).wf(),
    {
        self.lifecycle.stop()
    }

    /// Whether the node runs.
    pub fn is_running_now(&self) -> (r: bool)
        ensures
            r == self.is_running(),
    {
        self.lifecycle.running()
    }

    /// Succeeds where the node runs, and fails with `NotRunning` where it does not: the
    /// check that every operation needing the runtime makes first.
    pub fn require_running(&self) -> (r: Result<(), Error>)
        ensures
            self.is_running() ==> r is Ok,
            !self.is_running() ==> r == Err::<(), Error>(Error::NotRunning),
    {
        self.lifecycle.require_running()
    }

    /// Adds an event that the channel engine reported, after persisting it.
    pub fn push_event(&mut self, event: Event) -> (r: Result<(), Error>)
        requires
            old(self).wf(),
        ensures
            final(self).wf(),
            final(self).is_running() == old(self).is_running(),
            final(self).known_peers() == old(self).known_peers(),
            match r {
                Ok(()) => final(self).pending() == old(self).pending().push(event),
                Err(e) => e == Error::PersistenceFailed && final(self).pending() == old(self).pending(),
            },
    {
        self.event_queue.push(event)
    }

    /// The oldest pending event, the same one until it is acknowledged with `event_handled`.
    pub fn next_event(&self) -> (r: Option<Event>)
        ensures
            r == head_of(self.pending()),
    {
        self.event_queue.next_event()
    }

    /// Acknowledges the oldest pending event, which then leaves the queue.
    pub fn event_handled(&mut self) -> (r: Result<(), Error>)
        requires
            old(self).wf(),
        ensures
            final(self).wf(),
            final(self).is_running() == old(self).is_running(),
            final(self).known_peers() == old(self).known_peers(),
            match r {
                Ok(()) => old(self).pending().len() > 0 ==> final(self).pending() == old(self).pending().drop_first(),
                Err(e) => e == Error::PersistenceFailed && final(self).pending() == old(self).pending(),
            },
            old(self).pending().len() == 0 ==> final(self).pending() == old(self).pending(),
    {
        self.event_queue.event_handled()
    }

    /// The listening address of the configuration.
    pub fn listening_address(&self) -> (r: Option<String>)
        ensures
            match self.spec_config().listening_address {
                Some(a) => r is Some && r->Some_0@ == a@,
                None => r is None,
            },
    {
        match &self.config.listening_address {
            Some(a) => Some(a.clone()),
            None => None,
        }
    }

    /// The default CLTV expiry delta of the configuration.
    pub fn default_cltv_expiry_delta(&self) -> (r: u32)
        ensures
            r == self.spec_config().default_cltv_expiry_delta,
    {
        self.config.default_cltv_expiry_delta
    }

    /// The checks before a channel is opened to `PUBKEY@ADDRESS`: `NotRunning` where the
    /// node does not run, else `PeerInfoParseFailed` where the text does not parse;
    /// otherwise the key and the address text to connect to.
    pub fn connect_open_channel<'a>(&self, peer: &'a str) -> (r: Result<
        (PublicKey, &'a str),
        Error,
    >)
        ensures
            !self.is_running() ==> r == Err::<(PublicKey, &str), Error>(Error::NotRunning),
            self.is_running() ==> match first_at(peer@) {
                Some(i) => match pubkey_from_hex(peer@.take(i)) {
                    Some(k) => r is Ok && r->Ok_0.0.bytes@ == k && r->Ok_0.1@ == peer@.skip(
                        i + 1,
                    ),
                    None => r == Err::<(PublicKey, &str), Error>(Error::PeerInfoParseFailed),
                },
                None => r == Err::<(PublicKey, &str), Error>(Error::PeerInfoParseFailed),
            },
    {
        open_channel_request(&self.lifecycle, peer)
    }

    /// Remembers the peer of a channel that was opened, for reconnection.
    pub fn remember_peer(&mut self, peer: PeerInfo) -> (r: Result<(), Error>)
        requires
            old(self).wf(),
        ensures
            final(self).wf(),
            final(self).is_running() == old(self).is_running(),
            final(self).pending() == old(self).pending(),
            match r {
                Ok(()) => final(self).known_peers() == upsert(old(self).known_peers(), peer),
                Err(e) => e == Error::PersistenceFailed && final(self).known_peers() == old(self).known_peers(),
            },
    {
        self.peer_store.add_peer(peer)
    }

    /// Forgets the peer of a channel that is being closed. Fails with `PersistenceFailed`,
    /// and forgets nothing, where the store refuses the write; the channel is then not to be
    /// closed.
    pub fn forget_peer(&mut self, key: &PublicKey) -> (r: Result<(), Error>)
        requires
            old(self).wf(),
        ensures
            final(self).wf(),
            final(self).is_running() == old(self).is_running(),
            final(self).pending() == old(self).pending(),
            match r {
                Ok(()) => final(self).known_peers() == without_key(
                    old(self).known_peers(),
                    key.bytes@,
                ),
                Err(e) => e == Error::PersistenceFailed && final(self).known_peers() == old(self).known_peers(),
            },
    {
        self.peer_store.remove_peer(key)
    }

    /// The known peers.
    pub fn peers(&self) -> (r: Vec<PeerInfo>)
        ensures
            r@ == self.known_peers(),
    {
        self.peer_store.peers()
    }

    /// One tick of the reconnector: the known peers of every channel counterparty that is
    /// not connected.
    pub fn reconnect_targets(&self, counterparties: &Vec<PublicKey>, connected: &Vec<PublicKey>) -> (r:
        Vec<PeerInfo>)
        ensures
            r@ == reconnect_plan(counterparties@, connected@, self.known_peers()),
    {
        let known = self.peer_store.peers();
        reconnect_targets(counterparties, connected, &known)
    }

    /// Records an outbound payment to an invoice after the attempt to pay it.
    pub fn record_invoice_payment(
        &mut self,
        attempt: PayAttempt,
        hash: PaymentHash,
        secret: Option<[u8; 32]>,
        amount_msat: Option<u64>,
    ) -> (r: Result<PaymentHash, Error>)
        ensures
            final(self).wf() == old(self).wf(),
            final(self).is_running() == old(self).is_running(),
            final(self).pending() == old(self).pending(),
            final(self).known_peers() == old(self).known_peers(),
            final(self).inbound() == old(self).inbound(),
            match attempt_outcome(attempt) {
                Ok(status) => r == Ok::<PaymentHash, Error>(hash) && final(self).outbound()
                    == old(self).outbound().insert(
                    hash.0@,
                    PaymentInfo { preimage: None, secret, status, amount_msat },
                ),
                Err(e) => r == Err::<PaymentHash, Error>(e) && final(self).outbound() == old(self).outbound(),
            },
    {
        record_outbound_payment(&mut self.outbound_payments, attempt, hash, secret, amount_msat)
    }

    /// Records a spontaneous payment after the attempt to send it; its hash is the SHA-256
    /// of its preimage.
    pub fn record_spontaneous_payment(
        &mut self,
        attempt: PayAttempt,
        preimage: [u8; 32],
        amount_msat: u64,
    ) -> (r: Result<PaymentHash, Error>)
        ensures
            final(self).wf() == old(self).wf(),
            final(self).is_running() == old(self).is_running(),
            final(self).pending() == old(self).pending(),
            final(self).known_peers() == old(self).known_peers(),
            final(self).inbound() == old(self).inbound(),
            match attempt_outcome(attempt) {
                Ok(status) => r is Ok && r->Ok_0.0@ == sha256_of(preimage@) && final(self).outbound() == old(self).outbound().insert(
                    sha256_of(preimage@),
                    PaymentInfo {
                        preimage: None,
                        secret: None,
                        status,
                        amount_msat: Some(amount_msat),
                    },
                ),
                Err(e) => r == Err::<PaymentHash, Error>(e) && final(self).outbound() == old(self).outbound(),
            },
    {
        record_spontaneous_payment(&mut self.outbound_payments, attempt, preimage, amount_msat)
    }

    /// Records an invoice that was issued, as a pending inbound payment.
    pub fn record_invoice_issued(
        &mut self,
        hash: PaymentHash,
        secret: [u8; 32],
        amount_msat: Option<u64>,
    )
        ensures
            final(self).wf() == old(self).wf(),
            final(self).is_running() == old(self).is_running(),
            final(self).pending() == old(self).pending(),
            final(self).known_peers() == old(self).known_peers(),
            final(self).outbound() == old(self).outbound(),
            final(self).inbound() == old(self).inbound().insert(
                hash.0@,
                PaymentInfo {
                    preimage: None,
                    secret: Some(secret),
                    status: PaymentStatus::Pending,
                    amount_msat,
                },
            ),
    {
        self.inbound_payments.insert(
            hash,
            PaymentInfo {
                preimage: None,
                secret: Some(secret),
                status: PaymentStatus::Pending,
                amount_msat,
            },
        );
    }

    /// What is known of the payment with the hash: the outbound record where there is one,
    /// else the inbound one.
    pub fn payment_info(&self, payment_hash: &[u8; 32]) -> (r: Option<PaymentInfo>)
        ensures
            r == lookup_payment(self.outbound(), self.inbound(), payment_hash@),
    {
        payment_info(&self.outbound_payments, &self.inbound_payments, &PaymentHash(*payment_hash))
    }

    /// Gives up the node and returns its two stores, the events' and the peers', as a restart
    /// would find them.
    pub fn into_stores(self) -> (r: (S, S))
        ensures
            r.0.contents() == self.stored_events(),
            r.1.contents() == self.stored_peers(),
    {
        (self.event_queue.into_store(), self.peer_store.into_store())
    }
}

} // verus!
