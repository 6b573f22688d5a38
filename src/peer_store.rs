use vstd::prelude::*;
use crate::codec::{
    concat, get_bytes, lemma_concat_fixed, lemma_concat_fixed_injective,
    lemma_u16_bytes_round_trip, lemma_u16_round_trip, put_bytes, put_u16, u16_be,
};
use crate::error::Error;
use crate::keys::pubkey_from_hex;
use crate::store::{BlobStore, StoreKey};
use crate::types::PublicKey;

verus! {

/// A network endpoint: an IPv6 address (IPv4 as its IPv4-mapped form) and a TCP port.
#[derive(Debug, Clone, Copy, PartialEq, Eq)]
pub struct PeerAddress {
    pub ip: [u8; 16],
    pub port: u16,
}

/// A remembered peer: its public key and where to reach it.
#[derive(Debug, Clone, Copy, PartialEq, Eq)]
pub struct PeerInfo {
    pub pubkey: PublicKey,
    pub address: PeerAddress,
}

/// The number of bytes that one peer takes in the persisted form.
pub const PEER_RECORD_LEN: usize = 51;

/// One peer as bytes: the key, the address and the port.
pub open spec fn encode_peer(p: PeerInfo) -> Seq<u8> {
    p.pubkey.bytes@ + p.address.ip@ + u16_be(p.address.port)
}

/// A sequence of peers as bytes: their records end to end.
pub open spec fn encode_peers(s: Seq<PeerInfo>) -> Seq<u8> {
    concat(s.map_values(|p: PeerInfo| encode_peer(p)))
}

/// The key of a peer, as bytes.
pub open spec fn key_of(p: PeerInfo) -> Seq<u8> {
    p.pubkey.bytes@
}

/// No two peers share a key.
pub open spec fn keys_unique(s: Seq<PeerInfo>) -> bool {
    forall|i: int, j: int|
        0 <= i < s.len() && 0 <= j < s.len() && i != j ==> key_of(#[trigger] s[i]) != key_of(
            #[trigger] s[j],
        )
}

/// Whether some peer has the key.
pub open spec fn has_key(s: Seq<PeerInfo>, k: Seq<u8>) -> bool {
    exists|i: int| 0 <= i < s.len() && key_of(#[trigger] s[i]) == k
}

/// Where the peer with the key stands, if one does.
pub open spec fn key_index(s: Seq<PeerInfo>, k: Seq<u8>) -> int {
    choose|i: int| 0 <= i < s.len() && key_of(#[trigger] s[i]) == k
}

/// The peers after adding one: it replaces the peer with its key, in place, or else comes
/// last.
pub open spec fn upsert(s: Seq<PeerInfo>, p: PeerInfo) -> Seq<PeerInfo> {
    if has_key(s, key_of(p)) {
        s.update(key_index(s, key_of(p)), p)
    } else {
        s.push(p)
    }
}

/// The peers without the one that has the key, the others in their order.
pub open spec fn without_key(s: Seq<PeerInfo>, k: Seq<u8>) -> Seq<PeerInfo>
    decreases s.len(),
{
    if s.len() == 0 {
        s
    } else if key_of(s.last()) == k {
        without_key(s.drop_last(), k)
    } else {
        without_key(s.drop_last(), k).push(s.last())
    }
}

/// Whether the store holds exactly the given peers: their encoding under the peers key, or
/// nothing at all when there are none.
pub open spec fn holds_peers(m: Map<StoreKey, Seq<u8>>, s: Seq<PeerInfo>) -> bool {
    if m.contains_key(StoreKey::Peers) {
        m[StoreKey::Peers] == encode_peers(s)
    } else {
        s.len() == 0
    }
}

proof fn lemma_encode_peer_fields(p: PeerInfo)
    ensures
        encode_peer(p).len() == 51,
        encode_peer(p).subrange(0, 33) == p.pubkey.bytes@,
        encode_peer(p).subrange(33, 49) == p.address.ip@,
        encode_peer(p)[49] == u16_be(p.address.port)[0],
        encode_peer(p)[50] == u16_be(p.address.port)[1],
{
    let r = encode_peer(p);
    assert(r.subrange(0, 33) =~= p.pubkey.bytes@);
    assert(r.subrange(33, 49) =~= p.address.ip@);
}

proof fn lemma_encode_peer_injective(a: PeerInfo, b: PeerInfo)
    requires
        encode_peer(a) == encode_peer(b),
    ensures
        a == b,
{
    lemma_encode_peer_fields(a);
    lemma_encode_peer_fields(b);
    lemma_u16_round_trip(a.address.port);
    lemma_u16_round_trip(b.address.port);
    assert(a.pubkey.bytes =~= b.pubkey.bytes);
    assert(a.address.ip =~= b.address.ip);
}

proof fn lemma_encode_peers_push(s: Seq<PeerInfo>, p: PeerInfo)
    ensures
        encode_peers(s.push(p)) == encode_peers(s) + encode_peer(p),
{
    let f = |x: PeerInfo| encode_peer(x);
    assert(s.push(p).map_values(f).drop_last() =~= s.map_values(f));
}

proof fn lemma_encode_peers_len(s: Seq<PeerInfo>)
    ensures
        encode_peers(s).len() == 51 * s.len(),
{
    let parts = s.map_values(|x: PeerInfo| encode_peer(x));
    assert forall|i: int| 0 <= i < parts.len() implies (#[trigger] parts[i]).len() == 51 by {
        lemma_encode_peer_fields(s[i]);
    }
    lemma_concat_fixed(parts, 51);
}

/// Two sequences of peers with the same encoding are the same sequence.
pub proof fn lemma_encode_peers_injective(s: Seq<PeerInfo>, t: Seq<PeerInfo>)
    requires
        encode_peers(s) == encode_peers(t),
    ensures
        s == t,
{
    let f = |x: PeerInfo| encode_peer(x);
    let p = s.map_values(f);
    let q = t.map_values(f);
    assert forall|i: int| 0 <= i < p.len() implies (#[trigger] p[i]).len() == 51 by {
        lemma_encode_peer_fields(s[i]);
    }
    assert forall|i: int| 0 <= i < q.len() implies (#[trigger] q[i]).len() == 51 by {
        lemma_encode_peer_fields(t[i]);
    }
    lemma_concat_fixed_injective(p, q, 51);
    assert forall|i: int| 0 <= i < s.len() implies s[i] == t[i] by {
        assert(p[i] == q[i]);
        lemma_encode_peer_injective(s[i], t[i]);
    }
    assert(s =~= t);
}

/// A store holds at most one sequence of peers.
pub proof fn lemma_holds_peers_unique(m: Map<StoreKey, Seq<u8>>, s: Seq<PeerInfo>, t: Seq<PeerInfo>)
    requires
        holds_peers(m, s),
        holds_peers(m, t),
    ensures
        s == t,
{
    if m.contains_key(StoreKey::Peers) {
        lemma_encode_peers_injective(s, t);
    } else {
        assert(s =~= t);
    }
}

/// Removing a key leaves no peer with it, keeps only peers that were there, and keeps keys
/// unique.
pub proof fn lemma_without_key(s: Seq<PeerInfo>, k: Seq<u8>)
    ensures
        forall|j: int|
            0 <= j < without_key(s, k).len() ==> key_of(#[trigger] without_key(s, k)[j]) != k,
        forall|j: int|
            0 <= j < without_key(s, k).len() ==> s.contains(#[trigger] without_key(s, k)[j]),
        keys_unique(s) ==> keys_unique(without_key(s, k)),
    decreases s.len(),
{
    if s.len() > 0 {
        let init = s.drop_last();
        lemma_without_key(init, k);
        let w = without_key(init, k);
        assert forall|j: int| 0 <= j < w.len() implies s.contains(#[trigger] w[j]) by {
            let i = choose|i: int| 0 <= i < init.len() && init[i] == w[j];
            assert(s[i] == w[j]);
        }
        if key_of(s.last()) != k {
            assert(s[s.len() - 1] == s.last());
            if keys_unique(s) {
                let w2 = w.push(s.last());
                assert forall|a: int, b: int|
                    0 <= a < w2.len() && 0 <= b < w2.len() && a != b implies key_of(
                    #[trigger] w2[a],
                ) != key_of(#[trigger] w2[b]) by {
                    if a < w.len() && b < w.len() {
                        assert(w2[a] == w[a] && w2[b] == w[b]);
                    } else if a < w.len() {
                        let i = choose|i: int| 0 <= i < init.len() && init[i] == w[a];
                        assert(s[i] == w[a]);
                    } else if b < w.len() {
                        let i = choose|i: int| 0 <= i < init.len() && init[i] == w[b];
                        assert(s[i] == w[b]);
                    }
                }
                assert(keys_unique(init)) by {
                    assert forall|a: int, b: int|
                        0 <= a < init.len() && 0 <= b < init.len() && a != b implies key_of(
                        #[trigger] init[a],
                    ) != key_of(#[trigger] init[b]) by {
                        assert(s[a] == init[a] && s[b] == init[b]);
                    }
                }
            }
        } else {
            if keys_unique(s) {
                assert(keys_unique(init)) by {
                    assert forall|a: int, b: int|
                        0 <= a < init.len() && 0 <= b < init.len() && a != b implies key_of(
                        #[trigger] init[a],
                    ) != key_of(#[trigger] init[b]) by {
                        assert(s[a] == init[a] && s[b] == init[b]);
                    }
                }
            }
        }
    }
}

/// Adding a peer leaves it in the directory and keeps keys unique.
pub proof fn lemma_upsert(s: Seq<PeerInfo>, p: PeerInfo)
    requires
        keys_unique(s),
    ensures
        upsert(s, p).contains(p),
        keys_unique(upsert(s, p)),
{
    let u = upsert(s, p);
    if has_key(s, key_of(p)) {
        let i = key_index(s, key_of(p));
        assert(u[i] == p);
        assert forall|a: int, b: int|
            0 <= a < u.len() && 0 <= b < u.len() && a != b implies key_of(#[trigger] u[a])
            != key_of(#[trigger] u[b]) by {
            assert(key_of(u[a]) == key_of(s[a]));
            assert(key_of(u[b]) == key_of(s[b]));
        }
    } else {
        assert(u[s.len() as int] == p);
        assert forall|a: int, b: int|
            0 <= a < u.len() && 0 <= b < u.len() && a != b implies key_of(#[trigger] u[a])
            != key_of(#[trigger] u[b]) by {
            if a < s.len() && b < s.len() {
                assert(u[a] == s[a] && u[b] == s[b]);
            } else if a < s.len() {
                assert(u[a] == s[a]);
            } else {
                assert(u[b] == s[b]);
            }
        }
    }
}

/// A peer that was added can be found after a reload, and after its key is removed a
/// reload no longer finds it: the store of the directory holds exactly its peers.
pub proof fn lemma_peer_add_remove_reload(
    s: Seq<PeerInfo>,
    p: PeerInfo,
    after_add: Map<StoreKey, Seq<u8>>,
    reloaded_after_add: Seq<PeerInfo>,
    after_remove: Map<StoreKey, Seq<u8>>,
    reloaded_after_remove: Seq<PeerInfo>,
)
    requires
        keys_unique(s),
        holds_peers(after_add, upsert(s, p)),
        holds_peers(after_add, reloaded_after_add),
        holds_peers(after_remove, without_key(upsert(s, p), key_of(p))),
        holds_peers(after_remove, reloaded_after_remove),
    ensures
        reloaded_after_add.contains(p),
        forall|j: int|
            0 <= j < reloaded_after_remove.len() ==> key_of(#[trigger] reloaded_after_remove[j])
                != key_of(p),
{
    lemma_upsert(s, p);
    lemma_holds_peers_unique(after_add, upsert(s, p), reloaded_after_add);
    lemma_without_key(upsert(s, p), key_of(p));
    lemma_holds_peers_unique(
        after_remove,
        without_key(upsert(s, p), key_of(p)),
        reloaded_after_remove,
    );
}

fn put_peer(out: &mut Vec<u8>, p: &PeerInfo)
    ensures
        final(out)@ == old(out)@ + encode_peer(*p),
{
    let ghost start = out@;
    put_bytes(out, &p.pubkey.bytes);
    put_bytes(out, &p.address.ip);
    put_u16(out, p.address.port);
    assert(out@ =~= start + encode_peer(*p));
}

/// Encodes a sequence of peers.
pub fn encode_peer_list(peers: &Vec<PeerInfo>) -> (r: Vec<u8>)
    ensures
        r@ == encode_peers(peers@),
{
    let mut out: Vec<u8> = Vec::new();
    let mut i: usize = 0;
    assert(encode_peers(peers@.take(0)) =~= Seq::<u8>::empty());
    while i < peers.len()
        invariant
            i <= peers@.len(),
            out@ == encode_peers(peers@.take(i as int)),
        decreases peers@.len() - i,
    {
        put_peer(&mut out, &peers[i]);
        proof {
            lemma_encode_peers_push(peers@.take(i as int), peers@[i as int]);
            assert(peers@.take(i as int).push(peers@[i as int]) =~= peers@.take(i + 1));
        }
        i = i + 1;
    }
    assert(peers@.take(peers@.len() as int) =~= peers@);
    out
}

/// Decodes the persisted form of a sequence of peers; `None` where the bytes are the
/// encoding of no sequence, that is where their length is not a multiple of a record's.
pub fn decode_peer_list(b: &Vec<u8>) -> (r: Option<Vec<PeerInfo>>)
    ensures
        match r {
            Some(v) => encode_peers(v@) == b@,
            None => forall|s: Seq<PeerInfo>| encode_peers(s) != b@,
        },
{
    let len = b.len();
    if len % PEER_RECORD_LEN != 0 {
        proof {
            assert forall|s: Seq<PeerInfo>| encode_peers(s) != b@ by {
                lemma_encode_peers_len(s);
                vstd::arithmetic::div_mod::lemma_mod_multiples_basic(s.len() as int, 51);
                assert(51 * s.len() == s.len() * 51);
            }
        }
        return None;
    }
    let n = len / PEER_RECORD_LEN;
    let mut out: Vec<PeerInfo> = Vec::new();
    let mut i: usize = 0;
    assert(b@.subrange(0, 0) =~= Seq::<u8>::empty());
    assert(encode_peers(Seq::<PeerInfo>::empty()) =~= Seq::<u8>::empty());
    while i < n
        invariant
            len == b@.len(),
            n == len / 51,
            len % 51 == 0,
            i <= n,
            encode_peers(out@) == b@.subrange(0, 51 * i),
        decreases n - i,
    {
        assert(51 * i + 51 <= len) by (nonlinear_arith)
            requires i < n, n == len / 51, len % 51 == 0;
        let off = PEER_RECORD_LEN * i;
        let key: [u8; 33] = get_bytes(b, off);
        let ip: [u8; 16] = get_bytes(b, off + 33);
        let hi = b[off + 49];
        let lo = b[off + 50];
        let port: u16 = (hi as u16) << 8u16 | lo as u16;
        let p = PeerInfo { pubkey: PublicKey { bytes: key }, address: PeerAddress { ip, port } };
        proof {
            lemma_u16_bytes_round_trip(hi, lo);
            let rec = b@.subrange(51 * i, 51 * i + 51);
            assert(encode_peer(p) =~= rec);
            lemma_encode_peers_push(out@, p);
            assert(b@.subrange(0, 51 * i) + rec =~= b@.subrange(0, 51 * (i + 1)));
        }
        out.push(p);
        i = i + 1;
    }
    assert(51 * n == len) by (nonlinear_arith)
        requires n == len / 51, len % 51 == 0;
    assert(b@.subrange(0, len as int) =~= b@);
    Some(out)
}

fn copy_peers(peers: &Vec<PeerInfo>) -> (r: Vec<PeerInfo>)
    ensures
        r@ == peers@,
{
    let mut out: Vec<PeerInfo> = Vec::new();
    let mut i: usize = 0;
    while i < peers.len()
        invariant
            i <= peers@.len(),
            out@ == peers@.take(i as int),
        decreases peers@.len() - i,
    {
        out.push(peers[i]);
        i = i + 1;
        assert(out@ =~= peers@.take(i as int));
    }
    assert(out@ =~= peers@);
    out
}

fn find_peer(peers: &Vec<PeerInfo>, key: &PublicKey) -> (r: Option<usize>)
    ensures
        match r {
            Some(i) => i < peers@.len() && key_of(peers@[i as int]) == key.bytes@,
            None => !has_key(peers@, key.bytes@),
        },
{
    let mut i: usize = 0;
    while i < peers.len()
        invariant
            i <= peers@.len(),
            forall|j: int| 0 <= j < i ==> key_of(#[trigger] peers@[j]) != key.bytes@,
        decreases peers@.len() - i,
    {
        if peers[i].pubkey.same_as(key) {
            return Some(i);
        }
        i = i + 1;
    }
    None
}

fn all_keys_unique(peers: &Vec<PeerInfo>) -> (r: bool)
    ensures
        r == keys_unique(peers@),
{
    let n = peers.len();
    let mut i: usize = 0;
    while i < n
        invariant
            i <= n,
            n == peers@.len(),
            forall|a: int, b: int|
                0 <= a < i && 0 <= b < n && a != b ==> key_of(#[trigger] peers@[a]) != key_of(
                    #[trigger] peers@[b],
                ),
        decreases n - i,
    {
        let mut j: usize = 0;
        while j < n
            invariant
                i < n,
                j <= n,
                n == peers@.len(),
                forall|a: int, b: int|
                    0 <= a < i && 0 <= b < n && a != b ==> key_of(#[trigger] peers@[a])
                        != key_of(#[trigger] peers@[b]),
                forall|b: int|
                    0 <= b < j && b != i ==> key_of(peers@[i as int]) != key_of(
                        #[trigger] peers@[b],
                    ),
            decreases n - j,
        {
            if j != i && peers[i].pubkey.same_as(&peers[j].pubkey) {
                return false;
            }
            j = j + 1;
        }
        i = i + 1;
    }
    true
}

/// A durable directory of known peers, keyed by public key, kept in a blob store.
///
/// Every change is written to the store before it becomes visible, so the store always holds
/// exactly the known peers.
pub struct PeerStore<S: BlobStore> {
    peers: Vec<PeerInfo>,
    store: S,
}

impl<S: BlobStore> PeerStore<S> {
    /// The known peers, in the order in which they were first added.
    pub closed spec fn known(&self) -> Seq<PeerInfo> {
        self.peers@
    }

    /// What the underlying store holds.
    pub closed spec fn stored(&self) -> Map<StoreKey, Seq<u8>> {
        self.store.contents()
    }

    /// Keys are unique and the store holds exactly the known peers.
    pub open spec fn wf(&self) -> bool {
        keys_unique(self.known()) && holds_peers(self.stored(), self.known())
    }

    /// Opens the directory over a store, with the peers that it holds, or with none if it
    /// holds no peers. Fails with `PersistenceFailed` where the stored bytes are not the
    /// encoding of peers with distinct keys.
    pub fn restore(store: S) -> (r: Result<PeerStore<S>, Error>)
        ensures
            match r {
                Ok(d) => d.wf() && d.stored() == store.contents(),
                Err(e) => e == Error::PersistenceFailed && forall|s: Seq<PeerInfo>|
                    !(holds_peers(store.contents(), s) && keys_unique(s)),
            },
    {
        match store.read(StoreKey::Peers) {
            None => Ok(PeerStore { peers: Vec::new(), store }),
            Some(bytes) => match decode_peer_list(&bytes) {
                Some(peers) => {
                    if all_keys_unique(&peers) {
                        Ok(PeerStore { peers, store })
                    } else {
                        proof {
                            assert forall|s: Seq<PeerInfo>|
                                !(holds_peers(store.contents(), s) && keys_unique(s)) by {
                                if holds_peers(store.contents(), s) {
                                    lemma_encode_peers_injective(s, peers@);
                                }
                            }
                        }
                        Err(Error::PersistenceFailed)
                    }
                },
                None => Err(Error::PersistenceFailed),
            },
        }
    }

    /// Adds a peer, or replaces the address of the peer with its key, after writing the
    /// result to the store. Where the write fails nothing changes and `PersistenceFailed` is
    /// returned.
    pub fn add_peer(&mut self, peer: PeerInfo) -> (r: Result<(), Error>)
        requires
            old(self).wf(),
        ensures
            final(self).wf(),
            match r {
                Ok(()) => final(self).known() == upsert(old(self).known(), peer),
                Err(e) => e == Error::PersistenceFailed && final(self).known()
                    == old(self).known() && final(self).stored() == old(self).stored(),
            },
    {
        let ghost s = self.peers@;
        let found = find_peer(&self.peers, &peer.pubkey);
        let mut next = copy_peers(&self.peers);
        match found {
            Some(i) => {
                proof {
                    let k = key_index(s, key_of(peer));
                    assert(key_of(s[k]) == key_of(peer));
                    assert(k == i);
                }
                next.set(i, peer);
            },
            None => {
                next.push(peer);
            },
        }
        assert(next@ =~= upsert(s, peer));
        proof {
            lemma_upsert(s, peer);
        }
        let bytes = encode_peer_list(&next);
        match self.store.write(StoreKey::Peers, &bytes) {
            Ok(()) => {
                self.peers = next;
                Ok(())
            },
            Err(e) => Err(e),
        }
    }

    /// Forgets the peer with the key, if there is one, after writing the result to the
    /// store. Where the write fails nothing changes and `PersistenceFailed` is returned.
    pub fn remove_peer(&mut self, key: &PublicKey) -> (r: Result<(), Error>)
        requires
            old(self).wf(),
        ensures
            final(self).wf(),
            match r {
                Ok(()) => final(self).known() == without_key(old(self).known(), key.bytes@),
                Err(e) => e == Error::PersistenceFailed && final(self).known()
                    == old(self).known() && final(self).stored() == old(self).stored(),
            },
    {
        let ghost s = self.peers@;
        let ghost k = key.bytes@;
        let mut next: Vec<PeerInfo> = Vec::new();
        let mut i: usize = 0;
        assert(s.take(0) =~= Seq::<PeerInfo>::empty());
        while i < self.peers.len()
            invariant
                s == self.peers@,
                k == key.bytes@,
                i <= s.len(),
                next@ == without_key(s.take(i as int), k),
            decreases s.len() - i,
        {
            let p = self.peers[i];
            assert(s.take(i + 1).drop_last() =~= s.take(i as int));
            if !p.pubkey.same_as(key) {
                next.push(p);
            }
            i = i + 1;
        }
        assert(s.take(s.len() as int) =~= s);
        proof {
            lemma_without_key(s, k);
        }
        let bytes = encode_peer_list(&next);
        match self.store.write(StoreKey::Peers, &bytes) {
            Ok(()) => {
                self.peers = next;
                Ok(())
            },
            Err(e) => Err(e),
        }
    }

    /// The known peers, in the order in which they were first added.
    pub fn peers(&self) -> (r: Vec<PeerInfo>)
        ensures
            r@ == self.known(),
    {
        copy_peers(&self.peers)
    }

    /// The peer with the key, if it is known.
    pub fn get_peer(&self, key: &PublicKey) -> (r: Option<PeerInfo>)
        ensures
            match r {
                Some(p) => self.known().contains(p) && key_of(p) == key.bytes@,
                None => !has_key(self.known(), key.bytes@),
            },
    {
        match find_peer(&self.peers, key) {
            Some(i) => Some(self.peers[i]),
            None => None,
        }
    }

    /// Gives up the directory and returns its store, as a restart would find it.
    pub fn into_store(self) -> (r: S)
        ensures
            r.contents() == self.stored(),
    {
        self.store
    }
}

/// The position of the first `@` in the text, if there is one.
pub open spec fn first_at(s: Seq<char>) -> Option<int> {
    if exists|i: int| 0 <= i < s.len() && s[i] == '@' {
        Some(choose|i: int| 0 <= i < s.len() && s[i] == '@' && forall|j: int| 0 <= j < i ==> s[j] != '@')
    } else {
        None
    }
}

/// Splits `PUBKEY@ADDRESS` at its first `@` into the public key, which must be 66
/// hexadecimal digits of a valid compressed key, and the address text, which is left to be
/// resolved. Anything else is `PeerInfoParseFailed`.
pub fn parse_peer_str(s: &str) -> (r: Result<(PublicKey, &str), Error>)
    ensures
        match first_at(s@) {
            Some(i) => match pubkey_from_hex(s@.take(i)) {
                Some(k) => r is Ok && r->Ok_0.0.bytes@ == k && r->Ok_0.1@ == s@.skip(i + 1),
                None => r == Err::<(PublicKey, &str), Error>(Error::PeerInfoParseFailed),
            },
            None => r == Err::<(PublicKey, &str), Error>(Error::PeerInfoParseFailed),
        },
{
    let n = s.unicode_len();
    let mut i: usize = 0;
    while i < n
        invariant
            i <= n,
            n == s@.len(),
            forall|j: int| 0 <= j < i ==> s@[j] != '@',
        ensures
            i <= n,
            forall|j: int| 0 <= j < i ==> s@[j] != '@',
            i < n ==> s@[i as int] == '@',
        decreases n - i,
    {
        if s.get_char(i) == '@' {
            break;
        }
        i = i + 1;
    }
    if i == n {
        return Err(Error::PeerInfoParseFailed);
    }
    proof {
        assert(0 <= i < s@.len() && s@[i as int] == '@' && forall|j: int|
            0 <= j < i ==> s@[j] != '@');
        let c = choose|c: int|
            0 <= c < s@.len() && s@[c] == '@' && forall|j: int| 0 <= j < c ==> s@[j] != '@';
        if c < i {
            assert(s@[c] != '@');
        }
        if c > i {
            assert(s@[i as int] != '@');
        }
        assert(c == i);
    }
    let key_text = s.substring_char(0, i);
    let rest = s.substring_char(i + 1, n);
    assert(key_text@ =~= s@.take(i as int));
    assert(rest@ =~= s@.skip(i + 1));
    match PublicKey::from_hex(key_text) {
        Some(k) => Ok((k, rest)),
        None => Err(Error::PeerInfoParseFailed),
    }
}


} // verus!
