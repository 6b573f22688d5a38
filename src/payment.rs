use vstd::prelude::*;
use crate::error::Error;
use crate::keys::{sha256, sha256_of};
use crate::types::{PaymentHash, PaymentInfo, PaymentStatus};

verus! {

/// The map that a log of insertions leaves: a later entry for a hash replaces an earlier one.
pub open spec fn entries_map(s: Seq<(PaymentHash, PaymentInfo)>) -> Map<Seq<u8>, PaymentInfo>
    decreases s.len(),
{
    if s.len() == 0 {
        Map::empty()
    } else {
        entries_map(s.drop_last()).insert(s.last().0.0@, s.last().1)
    }
}

proof fn lemma_entries_suffix(s: Seq<(PaymentHash, PaymentInfo)>, i: int, k: Seq<u8>)
    requires
        0 <= i <= s.len(),
        forall|j: int| i <= j < s.len() ==> (#[trigger] s[j]).0.0@ != k,
    ensures
        entries_map(s).contains_key(k) == entries_map(s.take(i)).contains_key(k),
        entries_map(s).contains_key(k) ==> entries_map(s)[k] == entries_map(s.take(i))[k],
    decreases s.len() - i,
{
    if i < s.len() {
        let init = s.drop_last();
        lemma_entries_suffix(init, i, k);
        assert(init.take(i) =~= s.take(i));
        assert(s[s.len() - 1] == s.last());
    } else {
        assert(s.take(i) =~= s);
    }
}

/// What is known of payments, by payment hash.
pub struct PaymentStore {
    entries: Vec<(PaymentHash, PaymentInfo)>,
}

impl PaymentStore {
    /// The payments, by the bytes of their hash.
    pub closed spec fn view(&self) -> Map<Seq<u8>, PaymentInfo> {
        entries_map(self.entries@)
    }

    /// A store with no payments.
    pub fn new() -> (r: PaymentStore)
        ensures
            r@ == Map::<Seq<u8>, PaymentInfo>::empty(),
    {
        PaymentStore { entries: Vec::new() }
    }

    /// Records a payment, replacing what was known under its hash.
    pub fn insert(&mut self, hash: PaymentHash, info: PaymentInfo)
        ensures
            final(self)@ == old(self)@.insert(hash.0@, info),
    {
        self.entries.push((hash, info));
        assert(self.entries@.drop_last() =~= old(self).entries@);
    }

    /// What is known of the payment with the hash.
    pub fn get(&self, hash: &PaymentHash) -> (r: Option<PaymentInfo>)
        ensures
            match r {
                Some(info) => self@.contains_key(hash.0@) && self@[hash.0@] == info,
                None => !self@.contains_key(hash.0@),
            },
    {
        let ghost s = self.entries@;
        let mut i: usize = self.entries.len();
        while i > 0
            invariant
                s == self.entries@,
                i <= s.len(),
                forall|j: int| i <= j < s.len() ==> (#[trigger] s[j]).0.0@ != hash.0@,
            decreases i,
        {
            let entry = &self.entries[i - 1];
            if entry.0.same_as(hash) {
                proof {
                    lemma_entries_suffix(s, i as int, hash.0@);
                    assert(s.take(i as int).drop_last() =~= s.take(i - 1));
                    assert(s.take(i as int).last() == s[i - 1]);
                }
                return Some(entry.1);
            }
            i = i - 1;
        }
        proof {
            lemma_entries_suffix(s, 0, hash.0@);
            assert(s.take(0) =~= Seq::<(PaymentHash, PaymentInfo)>::empty());
        }
        None
    }
}

/// What is known of a payment: the outbound record where there is one, else the inbound one.
pub open spec fn lookup_payment(
    outbound: Map<Seq<u8>, PaymentInfo>,
    inbound: Map<Seq<u8>, PaymentInfo>,
    k: Seq<u8>,
) -> Option<PaymentInfo> {
    if outbound.contains_key(k) {
        Some(outbound[k])
    } else if inbound.contains_key(k) {
        Some(inbound[k])
    } else {
        None
    }
}

/// Looks a payment up, in the outbound payments first and then in the inbound ones.
pub fn payment_info(outbound: &PaymentStore, inbound: &PaymentStore, hash: &PaymentHash) -> (r:
    Option<PaymentInfo>)
    ensures
        r == lookup_payment(outbound@, inbound@, hash.0@),
{
    match outbound.get(hash) {
        Some(info) => Some(info),
        None => inbound.get(hash),
    }
}

/// How the channel engine answered a request to pay.
#[derive(Debug, Clone, Copy, PartialEq, Eq, Structural)]
pub enum PayAttempt {
    /// The payment was handed to the network.
    Initiated,
    /// The invoice was refused.
    InvoiceRejected,
    /// No route to the payee was found.
    NoRoute,
    /// Sending failed after a route was found.
    SendingFailed,
}

/// The status recorded for an attempt, or the error that the caller sees instead.
pub open spec fn attempt_outcome(a: PayAttempt) -> Result<PaymentStatus, Error> {
    match a {
        PayAttempt::Initiated => Ok(PaymentStatus::Pending),
        PayAttempt::InvoiceRejected => Err(Error::InvoiceInvalid),
        PayAttempt::NoRoute => Err(Error::RoutingFailed),
        PayAttempt::SendingFailed => Ok(PaymentStatus::Failed),
    }
}

/// Records an outbound payment after the attempt to send it: a refused invoice is
/// `InvoiceInvalid` and a missing route `RoutingFailed`, and neither is recorded; otherwise
/// the payment is recorded as pending, or as failed where sending failed, and its hash
/// returned.
pub fn record_outbound_payment(
    outbound: &mut PaymentStore,
    attempt: PayAttempt,
    hash: PaymentHash,
    secret: Option<[u8; 32]>,
    amount_msat: Option<u64>,
) -> (r: Result<PaymentHash, Error>)
    ensures
        match attempt_outcome(attempt) {
            Ok(status) => r == Ok::<PaymentHash, Error>(hash) && final(outbound)@ == old(
                outbound,
            )@.insert(
                hash.0@,
                PaymentInfo { preimage: None, secret, status, amount_msat },
            ),
            Err(e) => r == Err::<PaymentHash, Error>(e) && final(outbound)@ == old(outbound)@,
        },
{
    let status = match attempt {
        PayAttempt::Initiated => PaymentStatus::Pending,
        PayAttempt::InvoiceRejected => {
            return Err(Error::InvoiceInvalid);
        },
        PayAttempt::NoRoute => {
            return Err(Error::RoutingFailed);
        },
        PayAttempt::SendingFailed => PaymentStatus::Failed,
    };
    outbound.insert(hash, PaymentInfo { preimage: None, secret, status, amount_msat });
    Ok(hash)
}

/// Records a spontaneous payment, whose hash is the SHA-256 of its preimage, after the
/// attempt to send it, as `record_outbound_payment` does, with no secret and the amount sent.
pub fn record_spontaneous_payment(
    outbound: &mut PaymentStore,
    attempt: PayAttempt,
    preimage: [u8; 32],
    amount_msat: u64,
) -> (r: Result<PaymentHash, Error>)
    ensures
        match attempt_outcome(attempt) {
            Ok(status) => r is Ok && r->Ok_0.0@ == sha256_of(preimage@) && final(outbound)@
                == old(outbound)@.insert(
                sha256_of(preimage@),
                PaymentInfo { preimage: None, secret: None, status, amount_msat: Some(amount_msat) },
            ),
            Err(e) => r == Err::<PaymentHash, Error>(e) && final(outbound)@ == old(outbound)@,
        },
{
    let hash = PaymentHash(sha256(&preimage));
    record_outbound_payment(outbound, attempt, hash, None, Some(amount_msat))
}

} // verus!
