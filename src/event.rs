use vstd::prelude::*;
use crate::codec::{
    concat, get_bytes, get_u128, lemma_concat_fixed, lemma_concat_fixed_injective,
    lemma_u128_bytes_round_trip, lemma_u128_round_trip, put_bytes, put_u128, u128_be,
    u128_of_be,
};
use crate::error::Error;
use crate::store::{BlobStore, StoreKey};
use crate::types::{ChannelId, PaymentHash, UserChannelId};

verus! {

/// An event that the application has to react to.
#[derive(Debug, Clone, Copy, PartialEq, Eq)]
pub enum Event {
    /// A sent payment was successful.
    PaymentSuccessful { payment_hash: PaymentHash },
    /// A sent payment has failed.
    PaymentFailed { payment_hash: PaymentHash },
    /// A payment has been received.
    PaymentReceived { payment_hash: PaymentHash, amount_msat: u64 },
    /// A channel is ready to be used.
    ChannelReady { channel_id: ChannelId, user_channel_id: UserChannelId },
    /// A channel has been closed.
    ChannelClosed { channel_id: ChannelId, user_channel_id: UserChannelId },
}

/// The number of bytes that one event takes in the persisted form.
pub const EVENT_RECORD_LEN: usize = 49;

/// One event as bytes: a tag, 32 bytes of hash or channel id, and a 16-byte number (the
/// amount, the user's channel id, or zero).
pub open spec fn encode_event(e: Event) -> Seq<u8> {
    match e {
        Event::PaymentSuccessful { payment_hash } => seq![0u8] + payment_hash.0@ + u128_be(0),
        Event::PaymentFailed { payment_hash } => seq![1u8] + payment_hash.0@ + u128_be(0),
        Event::PaymentReceived { payment_hash, amount_msat } => seq![2u8] + payment_hash.0@
            + u128_be(amount_msat as u128),
        Event::ChannelReady { channel_id, user_channel_id } => seq![3u8] + channel_id.0@
            + u128_be(user_channel_id.0),
        Event::ChannelClosed { channel_id, user_channel_id } => seq![4u8] + channel_id.0@
            + u128_be(user_channel_id.0),
    }
}

/// A sequence of events as bytes: their records end to end.
pub open spec fn encode_events(s: Seq<Event>) -> Seq<u8> {
    concat(s.map_values(|e: Event| encode_event(e)))
}

/// Whether the store holds exactly the given pending events: their encoding under the
/// events key, or nothing at all when there are none.
pub open spec fn holds_events(m: Map<StoreKey, Seq<u8>>, s: Seq<Event>) -> bool {
    if m.contains_key(StoreKey::Events) {
        m[StoreKey::Events] == encode_events(s)
    } else {
        s.len() == 0
    }
}

/// The first of the pending events, if there is one.
pub open spec fn head_of(s: Seq<Event>) -> Option<Event> {
    if s.len() > 0 {
        Some(s[0])
    } else {
        None
    }
}

proof fn lemma_event_record_len(e: Event)
    ensures
        encode_event(e).len() == 49,
{
}

proof fn lemma_encode_event_injective(a: Event, b: Event)
    requires
        encode_event(a) == encode_event(b),
    ensures
        a == b,
{
    let ea = encode_event(a);
    let eb = encode_event(b);
    assert(ea[0] == eb[0]);
    assert(ea.subrange(1, 33) == eb.subrange(1, 33));
    assert(ea.subrange(33, 49) == eb.subrange(33, 49));
    match a {
        Event::PaymentSuccessful { payment_hash } => {
            assert(ea.subrange(1, 33) =~= payment_hash.0@);
        },
        Event::PaymentFailed { payment_hash } => {
            assert(ea.subrange(1, 33) =~= payment_hash.0@);
        },
        Event::PaymentReceived { payment_hash, amount_msat } => {
            assert(ea.subrange(1, 33) =~= payment_hash.0@);
            assert(ea.subrange(33, 49) =~= u128_be(amount_msat as u128));
            lemma_u128_round_trip(amount_msat as u128);
        },
        Event::ChannelReady { channel_id, user_channel_id } => {
            assert(ea.subrange(1, 33) =~= channel_id.0@);
            assert(ea.subrange(33, 49) =~= u128_be(user_channel_id.0));
            lemma_u128_round_trip(user_channel_id.0);
        },
        Event::ChannelClosed { channel_id, user_channel_id } => {
            assert(ea.subrange(1, 33) =~= channel_id.0@);
            assert(ea.subrange(33, 49) =~= u128_be(user_channel_id.0));
            lemma_u128_round_trip(user_channel_id.0);
        },
    }
    match (a, b) {
        (Event::PaymentSuccessful { payment_hash: x }, Event::PaymentSuccessful { payment_hash: y })
        | (Event::PaymentFailed { payment_hash: x }, Event::PaymentFailed { payment_hash: y }) => {
            assert(eb.subrange(1, 33) =~= y.0@);
            assert(x.0 =~= y.0);
        },
        (
            Event::PaymentReceived { payment_hash: x, amount_msat: m },
            Event::PaymentReceived { payment_hash: y, amount_msat: n },
        ) => {
            assert(eb.subrange(1, 33) =~= y.0@);
            assert(eb.subrange(33, 49) =~= u128_be(n as u128));
            lemma_u128_round_trip(n as u128);
            assert(x.0 =~= y.0);
        },
        (
            Event::ChannelReady { channel_id: x, user_channel_id: m },
            Event::ChannelReady { channel_id: y, user_channel_id: n },
        )
        | (
            Event::ChannelClosed { channel_id: x, user_channel_id: m },
            Event::ChannelClosed { channel_id: y, user_channel_id: n },
        ) => {
            assert(eb.subrange(1, 33) =~= y.0@);
            assert(eb.subrange(33, 49) =~= u128_be(n.0));
            lemma_u128_round_trip(n.0);
            assert(x.0 =~= y.0);
        },
        _ => {},
    }
}

/// The tag, identifier and number that an event's record holds.
proof fn lemma_record_fields(e: Event)
    ensures
        encode_event(e).len() == 49,
        encode_event(e)[0] <= 4,
        encode_event(e)[0] == 0 ==> u128_of_be(encode_event(e).subrange(33, 49)) == 0,
        encode_event(e)[0] == 1 ==> u128_of_be(encode_event(e).subrange(33, 49)) == 0,
        encode_event(e)[0] == 2 ==> u128_of_be(encode_event(e).subrange(33, 49))
            <= u64::MAX as u128,
{
    let r = encode_event(e);
    match e {
        Event::PaymentSuccessful { .. } | Event::PaymentFailed { .. } => {
            assert(r.subrange(33, 49) =~= u128_be(0));
            lemma_u128_round_trip(0);
        },
        Event::PaymentReceived { amount_msat, .. } => {
            assert(r.subrange(33, 49) =~= u128_be(amount_msat as u128));
            lemma_u128_round_trip(amount_msat as u128);
        },
        Event::ChannelReady { .. } | Event::ChannelClosed { .. } => {},
    }
}

proof fn lemma_encode_events_push(s: Seq<Event>, e: Event)
    ensures
        encode_events(s.push(e)) == encode_events(s) + encode_event(e),
{
    let f = |x: Event| encode_event(x);
    assert(s.push(e).map_values(f).drop_last() =~= s.map_values(f));
}

proof fn lemma_encode_events_records(s: Seq<Event>)
    ensures
        encode_events(s).len() == 49 * s.len(),
        forall|i: int|
            0 <= i < s.len() ==> encode_events(s).subrange(49 * i, 49 * i + 49) == encode_event(
                #[trigger] s[i],
            ),
{
    let parts = s.map_values(|x: Event| encode_event(x));
    assert forall|i: int| 0 <= i < parts.len() implies (#[trigger] parts[i]).len() == 49 by {
        lemma_event_record_len(s[i]);
    }
    lemma_concat_fixed(parts, 49);
    assert forall|i: int| 0 <= i < s.len() implies encode_events(s).subrange(49 * i, 49 * i + 49)
        == encode_event(#[trigger] s[i]) by {
        assert(parts[i] == encode_event(s[i]));
    }
}

/// Two sequences of events with the same encoding are the same sequence.
pub proof fn lemma_encode_events_injective(s: Seq<Event>, t: Seq<Event>)
    requires
        encode_events(s) == encode_events(t),
    ensures
        s == t,
{
    let f = |x: Event| encode_event(x);
    let p = s.map_values(f);
    let q = t.map_values(f);
    assert forall|i: int| 0 <= i < p.len() implies (#[trigger] p[i]).len() == 49 by {
        lemma_event_record_len(s[i]);
    }
    assert forall|i: int| 0 <= i < q.len() implies (#[trigger] q[i]).len() == 49 by {
        lemma_event_record_len(t[i]);
    }
    lemma_concat_fixed_injective(p, q, 49);
    assert forall|i: int| 0 <= i < s.len() implies s[i] == t[i] by {
        assert(p[i] == q[i]);
        lemma_encode_event_injective(s[i], t[i]);
    }
    assert(s =~= t);
}

fn put_event(out: &mut Vec<u8>, e: Event)
    ensures
        final(out)@ == old(out)@ + encode_event(e),
{
    let ghost start = out@;
    match e {
        Event::PaymentSuccessful { payment_hash } => {
            out.push(0u8);
            put_bytes(out, &payment_hash.0);
            put_u128(out, 0);
        },
        Event::PaymentFailed { payment_hash } => {
            out.push(1u8);
            put_bytes(out, &payment_hash.0);
            put_u128(out, 0);
        },
        Event::PaymentReceived { payment_hash, amount_msat } => {
            out.push(2u8);
            put_bytes(out, &payment_hash.0);
            put_u128(out, amount_msat as u128);
        },
        Event::ChannelReady { channel_id, user_channel_id } => {
            out.push(3u8);
            put_bytes(out, &channel_id.0);
            put_u128(out, user_channel_id.0);
        },
        Event::ChannelClosed { channel_id, user_channel_id } => {
            out.push(4u8);
            put_bytes(out, &channel_id.0);
            put_u128(out, user_channel_id.0);
        },
    }
    assert(out@ =~= start + encode_event(e));
}

/// Encodes the events from index `from` on.
fn encode_events_from(events: &Vec<Event>, from: usize) -> (r: Vec<u8>)
    requires
        from <= events@.len(),
    ensures
        r@ == encode_events(events@.subrange(from as int, events@.len() as int)),
{
    let mut out: Vec<u8> = Vec::new();
    let mut i: usize = from;
    assert(events@.subrange(from as int, from as int) =~= Seq::<Event>::empty());
    assert(encode_events(Seq::<Event>::empty()) =~= Seq::<u8>::empty());
    while i < events.len()
        invariant
            from <= i <= events@.len(),
            out@ == encode_events(events@.subrange(from as int, i as int)),
        decreases events@.len() - i,
    {
        let e = events[i];
        put_event(&mut out, e);
        proof {
            let s = events@.subrange(from as int, i as int);
            lemma_encode_events_push(s, e);
            assert(s.push(e) =~= events@.subrange(from as int, i + 1));
        }
        i = i + 1;
    }
    out
}

/// Encodes a sequence of events.
pub fn encode_event_list(events: &Vec<Event>) -> (r: Vec<u8>)
    ensures
        r@ == encode_events(events@),
{
    let r = encode_events_from(events, 0);
    assert(events@.subrange(0, events@.len() as int) =~= events@);
    r
}

fn decode_event_at(b: &Vec<u8>, off: usize) -> (r: Option<Event>)
    requires
        off + 49 <= b@.len(),
    ensures
        match r {
            Some(e) => encode_event(e) == b@.subrange(off as int, off + 49),
            None => forall|e: Event| encode_event(e) != b@.subrange(off as int, off + 49),
        },
{
    let ghost rec = b@.subrange(off as int, off + 49);
    let len = b.len();
    assert(off + 49 <= len);
    let tag = b[off];
    let id: [u8; 32] = get_bytes(b, off + 1);
    let num = get_u128(b, off + 33);
    proof {
        assert(rec[0] == tag);
        assert(rec.subrange(1, 33) =~= id@);
        assert(rec.subrange(33, 49) =~= b@.subrange(off + 33, off + 49));
        lemma_u128_bytes_round_trip(rec.subrange(33, 49));
        assert forall|e: Event| encode_event(e) == rec implies {
            &&& tag <= 4
            &&& (tag == 0 || tag == 1) ==> num == 0
            &&& tag == 2 ==> num <= u64::MAX as u128
        } by {
            lemma_record_fields(e);
        }
    }
    let r = if tag == 0 && num == 0 {
        Some(Event::PaymentSuccessful { payment_hash: PaymentHash(id) })
    } else if tag == 1 && num == 0 {
        Some(Event::PaymentFailed { payment_hash: PaymentHash(id) })
    } else if tag == 2 && num <= u64::MAX as u128 {
        Some(Event::PaymentReceived { payment_hash: PaymentHash(id), amount_msat: num as u64 })
    } else if tag == 3 {
        Some(Event::ChannelReady { channel_id: ChannelId(id), user_channel_id: UserChannelId(num) })
    } else if tag == 4 {
        Some(
            Event::ChannelClosed { channel_id: ChannelId(id), user_channel_id: UserChannelId(num) },
        )
    } else {
        None
    };
    proof {
        if let Some(e) = r {
            assert(rec =~= seq![tag] + rec.subrange(1, 33) + rec.subrange(33, 49));
            assert(encode_event(e) =~= rec);
        }
    }
    r
}

/// Decodes the persisted form of a sequence of events; `None` where the bytes are the
/// encoding of no sequence.
pub fn decode_event_list(b: &Vec<u8>) -> (r: Option<Vec<Event>>)
    ensures
        match r {
            Some(v) => encode_events(v@) == b@,
            None => forall|s: Seq<Event>| encode_events(s) != b@,
        },
{
    let len = b.len();
    if len % EVENT_RECORD_LEN != 0 {
        proof {
            assert forall|s: Seq<Event>| encode_events(s) != b@ by {
                lemma_encode_events_records(s);
                vstd::arithmetic::div_mod::lemma_mod_multiples_basic(s.len() as int, 49);
                assert(49 * s.len() == s.len() * 49);
            }
        }
        return None;
    }
    let n = len / EVENT_RECORD_LEN;
    let mut out: Vec<Event> = Vec::new();
    let mut i: usize = 0;
    assert(b@.subrange(0, 0) =~= Seq::<u8>::empty());
    assert(encode_events(Seq::<Event>::empty()) =~= Seq::<u8>::empty());
    while i < n
        invariant
            len == b@.len(),
            n == len / 49,
            len % 49 == 0,
            i <= n,
            out@.len() == i,
            encode_events(out@) == b@.subrange(0, 49 * i),
        decreases n - i,
    {
        assert(49 * i + 49 <= len) by (nonlinear_arith)
            requires i < n, n == len / 49, len % 49 == 0;
        let off = EVENT_RECORD_LEN * i;
        match decode_event_at(b, off) {
            Some(e) => {
                proof {
                    lemma_encode_events_push(out@, e);
                    assert(b@.subrange(0, 49 * i) + b@.subrange(49 * i, 49 * i + 49) =~= b@.subrange(
                        0,
                        49 * (i + 1),
                    ));
                }
                out.push(e);
            },
            None => {
                proof {
                    assert forall|s: Seq<Event>| encode_events(s) != b@ by {
                        if encode_events(s) == b@ {
                            lemma_encode_events_records(s);
                            assert(s.len() == n) by (nonlinear_arith)
                                requires 49 * s.len() == len, n == len / 49;
                            assert(encode_events(s).subrange(49 * i, 49 * i + 49) == encode_event(
                                s[i as int],
                            ));
                        }
                    }
                }
                return None;
            },
        }
        i = i + 1;
    }
    assert(49 * n == len) by (nonlinear_arith)
        requires n == len / 49, len % 49 == 0;
    assert(b@.subrange(0, len as int) =~= b@);
    Some(out)
}

/// A durable first-in first-out queue of pending events, kept in a blob store.
///
/// Every change is written to the store before it becomes visible, so the store always holds
/// exactly the pending events.
pub struct EventQueue<S: BlobStore> {
    events: Vec<Event>,
    store: S,
}

impl<S: BlobStore> EventQueue<S> {
    /// The pending events, the oldest first.
    pub closed spec fn pending(&self) -> Seq<Event> {
        self.events@
    }

    /// What the underlying store holds.
    pub closed spec fn stored(&self) -> Map<StoreKey, Seq<u8>> {
        self.store.contents()
    }

    /// The store holds exactly the pending events.
    pub open spec fn wf(&self) -> bool {
        holds_events(self.stored(), self.pending())
    }

    /// Opens the queue over a store, resuming with the events that it holds in their order,
    /// or with none if it holds no events. Fails with `PersistenceFailed` where the stored
    /// bytes are the encoding of no sequence of events.
    pub fn restore(store: S) -> (r: Result<EventQueue<S>, Error>)
        ensures
            match r {
                Ok(q) => q.wf() && q.stored() == store.contents() && holds_events(
                    store.contents(),
                    q.pending(),
                ),
                Err(e) => e == Error::PersistenceFailed && forall|s: Seq<Event>|
                    !holds_events(store.contents(), s),
            },
    {
        match store.read(StoreKey::Events) {
            None => Ok(EventQueue { events: Vec::new(), store }),
            Some(bytes) => match decode_event_list(&bytes) {
                Some(events) => Ok(EventQueue { events, store }),
                None => Err(Error::PersistenceFailed),
            },
        }
    }

    /// Appends an event, after writing the grown queue to the store. Where the write fails
    /// the queue is left as it was and `PersistenceFailed` is returned.
    pub fn push(&mut self, event: Event) -> (r: Result<(), Error>)
        requires
            old(self).wf(),
        ensures
            final(self).wf(),
            match r {
                Ok(()) => final(self).pending() == old(self).pending().push(event),
                Err(e) => e == Error::PersistenceFailed && final(self).pending()
                    == old(self).pending() && final(self).stored() == old(self).stored(),
            },
    {
        let mut bytes = encode_event_list(&self.events);
        put_event(&mut bytes, event);
        proof {
            lemma_encode_events_push(self.events@, event);
        }
        match self.store.write(StoreKey::Events, &bytes) {
            Ok(()) => {
                self.events.push(event);
                Ok(())
            },
            Err(e) => Err(e),
        }
    }

    /// The oldest pending event, which stays at the head until it is acknowledged with
    /// `event_handled`; `None` when no event is pending.
    pub fn next_event(&self) -> (r: Option<Event>)
        ensures
            r == head_of(self.pending()),
    {
        if self.events.len() > 0 {
            Some(self.events[0])
        } else {
            None
        }
    }

    /// Removes the oldest pending event, after writing the rest to the store. Where the write
    /// fails the event stays at the head and `PersistenceFailed` is returned. With no event
    /// pending, the empty queue is written again.
    pub fn event_handled(&mut self) -> (r: Result<(), Error>)
        requires
            old(self).wf(),
        ensures
            final(self).wf(),
            match r {
                Ok(()) => old(self).pending().len() > 0 ==> final(self).pending() == old(
                    self,
                ).pending().drop_first(),
                Err(e) => e == Error::PersistenceFailed && final(self).pending()
                    == old(self).pending() && final(self).stored() == old(self).stored(),
            },
            old(self).pending().len() == 0 ==> final(self).pending() == old(self).pending(),
    {
        let from: usize = if self.events.len() > 0 {
            1
        } else {
            0
        };
        let bytes = encode_events_from(&self.events, from);
        match self.store.write(StoreKey::Events, &bytes) {
            Ok(()) => {
                if from == 1 {
                    self.events.remove(0);
                }
                proof {
                    assert(self.events@ =~= old(self).events@.subrange(
                        from as int,
                        old(self).events@.len() as int,
                    ));
                }
                Ok(())
            },
            Err(e) => Err(e),
        }
    }

    /// The number of pending events.
    pub fn len(&self) -> (r: usize)
        ensures
            r == self.pending().len(),
    {
        self.events.len()
    }

    /// The pending events, the oldest first.
    pub fn pending_events(&self) -> (r: Vec<Event>)
        ensures
            r@ == self.pending(),
    {
        let mut out: Vec<Event> = Vec::new();
        let mut i: usize = 0;
        while i < self.events.len()
            invariant
                i <= self.events@.len(),
                out@ == self.events@.subrange(0, i as int),
            decreases self.events@.len() - i,
        {
            out.push(self.events[i]);
            i = i + 1;
            assert(out@ =~= self.events@.subrange(0, i as int));
        }
        assert(out@ =~= self.events@);
        out
    }

    /// Gives up the queue and returns its store, as a restart would find it.
    pub fn into_store(self) -> (r: S)
        ensures
            r.contents() == self.stored(),
    {
        self.store
    }
}

/// Reloading a queue from its store yields the pending events that it held, in the same
/// order: the store of a well-formed queue holds exactly one sequence of events.
pub proof fn lemma_reload_keeps_pending<S: BlobStore>(q: EventQueue<S>, reloaded: Seq<Event>)
    requires
        q.wf(),
        holds_events(q.stored(), reloaded),
    ensures
        reloaded == q.pending(),
{
    let m = q.stored();
    if m.contains_key(StoreKey::Events) {
        lemma_encode_events_injective(reloaded, q.pending());
    } else {
        assert(reloaded =~= q.pending());
    }
}

/// Once the head event is acknowledged, the second-oldest pending event becomes the head.
pub proof fn lemma_handled_promotes_second(before: Seq<Event>, after: Seq<Event>)
    requires
        before.len() > 0,
        after == before.drop_first(),
    ensures
        before.len() > 1 ==> head_of(after) == Some(before[1]),
        before.len() == 1 ==> head_of(after) is None,
{
}

} // verus!
