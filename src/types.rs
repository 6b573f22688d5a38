use vstd::prelude::*;

verus! {

/// A node's public key in its 33-byte compressed form.
#[derive(Debug, Clone, Copy, PartialEq, Eq)]
pub struct PublicKey {
    pub bytes: [u8; 33],
}

/// The identifier of a channel.
#[derive(Debug, Clone, Copy, PartialEq, Eq)]
pub struct ChannelId(pub [u8; 32]);

/// The identifier that the user gave a channel when it was opened.
#[derive(Debug, Clone, Copy, PartialEq, Eq)]
pub struct UserChannelId(pub u128);

/// The hash that identifies a payment.
#[derive(Debug, Clone, Copy, PartialEq, Eq)]
pub struct PaymentHash(pub [u8; 32]);

/// Compares two byte arrays of one length.
pub fn bytes_eq<const N: usize>(a: &[u8; N], b: &[u8; N]) -> (r: bool)
    ensures
        r == (a@ == b@),
{
    let mut i: usize = 0;
    while i < N
        invariant
            i <= N,
            a@.len() == N,
            b@.len() == N,
            forall|j: int| 0 <= j < i ==> a@[j] == b@[j],
        decreases N - i,
    {
        if a[i] != b[i] {
            return false;
        }
        i = i + 1;
    }
    assert(a@ =~= b@);
    true
}

impl PublicKey {
    /// Whether two keys are the same.
    pub fn same_as(&self, other: &PublicKey) -> (r: bool)
        ensures
            r == (self.bytes@ == other.bytes@),
    {
        bytes_eq(&self.bytes, &other.bytes)
    }
}

impl PaymentHash {
    /// Whether two hashes are the same.
    pub fn same_as(&self, other: &PaymentHash) -> (r: bool)
        ensures
            r == (self.0@ == other.0@),
    {
        bytes_eq(&self.0, &other.0)
    }
}

/// The Bitcoin network that a node runs on.
#[derive(Debug, Clone, Copy, PartialEq, Eq, Structural)]
pub enum Network {
    Bitcoin,
    Testnet,
    Regtest,
    Signet,
}

/// The network that a name stands for: `mainnet` or `bitcoin`, `testnet`, `regtest`, `signet`.
pub open spec fn network_named(s: Seq<char>) -> Option<Network> {
    if s == "mainnet"@ || s == "bitcoin"@ {
        Some(Network::Bitcoin)
    } else if s == "testnet"@ {
        Some(Network::Testnet)
    } else if s == "regtest"@ {
        Some(Network::Regtest)
    } else if s == "signet"@ {
        Some(Network::Signet)
    } else {
        None
    }
}

/// Compares two strings character by character.
pub fn str_eq(a: &str, b: &str) -> (r: bool)
    ensures
        r == (a@ == b@),
{
    let n = a.unicode_len();
    if n != b.unicode_len() {
        return false;
    }
    let mut i: usize = 0;
    while i < n
        invariant
            i <= n,
            n == a@.len(),
            n == b@.len(),
            forall|j: int| 0 <= j < i ==> a@[j] == b@[j],
        decreases n - i,
    {
        if a.get_char(i) != b.get_char(i) {
            return false;
        }
        i = i + 1;
    }
    assert(a@ =~= b@);
    true
}

impl Network {
    /// The network used where none is given: regtest.
    pub fn default_network() -> (r: Network)
        ensures
            r == Network::Regtest,
    {
        Network::Regtest
    }

    /// Parses a network name; any other name is `NetworkInvalid`.
    pub fn from_name(s: &str) -> (r: Result<Network, crate::error::Error>)
        ensures
            match network_named(s@) {
                Some(n) => r == Ok::<Network, crate::error::Error>(n),
                None => r == Err::<Network, crate::error::Error>(
                    crate::error::Error::NetworkInvalid,
                ),
            },
    {
        if str_eq(s, "mainnet") || str_eq(s, "bitcoin") {
            Ok(Network::Bitcoin)
        } else if str_eq(s, "testnet") {
            Ok(Network::Testnet)
        } else if str_eq(s, "regtest") {
            Ok(Network::Regtest)
        } else if str_eq(s, "signet") {
            Ok(Network::Signet)
        } else {
            Err(crate::error::Error::NetworkInvalid)
        }
    }
}

/// The state of a payment.
#[derive(Debug, Clone, Copy, PartialEq, Eq, Structural)]
pub enum PaymentStatus {
    /// The payment is still pending.
    Pending,
    /// The payment succeeded.
    Succeeded,
    /// The payment failed.
    Failed,
}

/// What is known of a payment.
#[derive(Debug, Clone, Copy, PartialEq, Eq)]
pub struct PaymentInfo {
    /// The preimage of the payment hash, once known.
    pub preimage: Option<[u8; 32]>,
    /// The secret that the invoice carried, if any.
    pub secret: Option<[u8; 32]>,
    /// The state of the payment.
    pub status: PaymentStatus,
    /// The amount in millisatoshis, if it is known.
    pub amount_msat: Option<u64>,
}

} // verus!
