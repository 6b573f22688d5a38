use vstd::prelude::*;
use crate::error::Error;

verus! {

/// The key under which a component keeps its state in a blob store.
#[derive(Debug, Clone, Copy, PartialEq, Eq, Structural)]
pub enum StoreKey {
    /// The pending events.
    Events,
    /// The known peers.
    Peers,
}

/// Durable storage of bytes by key.
///
/// A write either stores the whole value or, failing with `PersistenceFailed`, changes
/// nothing.
pub trait BlobStore {
    /// What the store holds under each key. The default body serves stores written outside
    /// verified code; proofs about an arbitrary store never see it, and a verified store
    /// states its own.
    closed spec fn contents(&self) -> Map<StoreKey, Seq<u8>> {
        Map::empty()
    }

    /// Reads what is stored under a key.
    fn read(&self, key: StoreKey) -> (r: Option<Vec<u8>>)
        ensures
            match r {
                Some(b) => self.contents().contains_key(key) && b@ == self.contents()[key],
                None => !self.contents().contains_key(key),
            };

    /// Stores the bytes under a key, replacing what was there.
    fn write(&mut self, key: StoreKey, bytes: &Vec<u8>) -> (r: Result<(), Error>)
        ensures
            match r {
                Ok(()) => final(self).contents() == old(self).contents().insert(key, bytes@),
                Err(e) => e == Error::PersistenceFailed && final(self).contents()
                    == old(self).contents(),
            };
}

/// A blob store held in memory, which can be made to refuse writes.
#[derive(Debug, Clone)]
pub struct MemoryStore {
    events: Option<Vec<u8>>,
    peers: Option<Vec<u8>>,
    read_only: bool,
}

/// The map of keys to values that two optional slots make.
pub open spec fn slots_map(events: Option<Seq<u8>>, peers: Option<Seq<u8>>) -> Map<
    StoreKey,
    Seq<u8>,
> {
    let with_events = match events {
        Some(b) => Map::empty().insert(StoreKey::Events, b),
        None => Map::empty(),
    };
    match peers {
        Some(b) => with_events.insert(StoreKey::Peers, b),
        None => with_events,
    }
}

impl MemoryStore {
    /// Whether the store refuses writes.
    pub closed spec fn is_read_only(&self) -> bool {
        self.read_only
    }

    /// An empty store that accepts writes.
    pub fn new() -> (r: MemoryStore)
        ensures
            r.contents() == Map::<StoreKey, Seq<u8>>::empty(),
            !r.is_read_only(),
    {
        let r = MemoryStore { events: None, peers: None, read_only: false };
        assert(r.contents() =~= Map::<StoreKey, Seq<u8>>::empty());
        r
    }

    /// Makes the store refuse, or accept again, every write.
    pub fn set_read_only(&mut self, read_only: bool)
        ensures
            final(self).contents() == old(self).contents(),
            final(self).is_read_only() == read_only,
    {
        self.read_only = read_only;
    }
}

impl BlobStore for MemoryStore {
    closed spec fn contents(&self) -> Map<StoreKey, Seq<u8>> {
        slots_map(
            match self.events {
                Some(b) => Some(b@),
                None => None,
            },
            match self.peers {
                Some(b) => Some(b@),
                None => None,
            },
        )
    }

    fn read(&self, key: StoreKey) -> (r: Option<Vec<u8>>) {
        let slot = match key {
            StoreKey::Events => &self.events,
            StoreKey::Peers => &self.peers,
        };
        match slot {
            Some(b) => Some(b.clone()),
            None => None,
        }
    }

    fn write(&mut self, key: StoreKey, bytes: &Vec<u8>) -> (r: Result<(), Error>) {
        if self.read_only {
            return Err(Error::PersistenceFailed);
        }
        let ghost before = self.contents();
        match key {
            StoreKey::Events => {
                self.events = Some(bytes.clone());
            },
            StoreKey::Peers => {
                self.peers = Some(bytes.clone());
            },
        }
        assert(self.contents() =~= before.insert(key, bytes@));
        Ok(())
    }
}

} // verus!
