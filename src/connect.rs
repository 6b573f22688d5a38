use vstd::prelude::*;
use crate::error::Error;
use crate::keys::pubkey_from_hex;
use crate::lifecycle::Lifecycle;
use crate::peer_store::{first_at, key_of, parse_peer_str, PeerInfo};
use crate::types::PublicKey;

verus! {

/// Whether a key is among the connected peers.
pub open spec fn among(connected: Seq<PublicKey>, k: Seq<u8>) -> bool {
    exists|i: int| 0 <= i < connected.len() && (#[trigger] connected[i]).bytes@ == k
}

/// Whether the peer with the key is connected already, in which case no connection is made.
pub fn is_connected(connected: &Vec<PublicKey>, key: &PublicKey) -> (r: bool)
    ensures
        r == among(connected@, key.bytes@),
{
    let mut i: usize = 0;
    while i < connected.len()
        invariant
            i <= connected@.len(),
            forall|j: int| 0 <= j < i ==> (#[trigger] connected@[j]).bytes@ != key.bytes@,
        decreases connected@.len() - i,
    {
        if connected[i].same_as(key) {
            return true;
        }
        i = i + 1;
    }
    false
}

/// What a connection attempt does on one poll.
#[derive(Debug, Clone, Copy, PartialEq, Eq, Structural)]
pub enum ConnectStep {
    /// The peer shows among the connected peers: the attempt succeeded.
    Connected,
    /// The connection was closed: the attempt failed with `ConnectionFailed`.
    Failed,
    /// Neither yet: wait a moment and poll again.
    Wait,
}

/// Decides one poll of an outbound connection attempt: a closed connection fails it, else
/// the peer showing among the connected peers completes it, else the attempt waits.
pub fn poll_connection(closed: bool, connected: &Vec<PublicKey>, key: &PublicKey) -> (r:
    ConnectStep)
    ensures
        closed ==> r == ConnectStep::Failed,
        !closed && among(connected@, key.bytes@) ==> r == ConnectStep::Connected,
        !closed && !among(connected@, key.bytes@) ==> r == ConnectStep::Wait,
{
    if closed {
        ConnectStep::Failed
    } else if is_connected(connected, key) {
        ConnectStep::Connected
    } else {
        ConnectStep::Wait
    }
}

/// The known peers with the key, in their order.
pub open spec fn peers_with_key(known: Seq<PeerInfo>, k: Seq<u8>) -> Seq<PeerInfo>
    decreases known.len(),
{
    if known.len() == 0 {
        known
    } else if key_of(known.last()) == k {
        peers_with_key(known.drop_last(), k).push(known.last())
    } else {
        peers_with_key(known.drop_last(), k)
    }
}

/// The peers to reconnect to: for each channel counterparty, in order, that is not
/// connected, the known peers with its key.
pub open spec fn reconnect_plan(
    counterparties: Seq<PublicKey>,
    connected: Seq<PublicKey>,
    known: Seq<PeerInfo>,
) -> Seq<PeerInfo>
    decreases counterparties.len(),
{
    if counterparties.len() == 0 {
        Seq::empty()
    } else {
        let k = counterparties.last().bytes@;
        reconnect_plan(counterparties.drop_last(), connected, known) + if among(connected, k) {
            Seq::empty()
        } else {
            peers_with_key(known, k)
        }
    }
}

fn known_with_key(known: &Vec<PeerInfo>, key: &PublicKey, out: &mut Vec<PeerInfo>)
    ensures
        final(out)@ == old(out)@ + peers_with_key(known@, key.bytes@),
{
    let ghost start = out@;
    let ghost k = key.bytes@;
    let mut i: usize = 0;
    assert(peers_with_key(known@.take(0), k) =~= Seq::<PeerInfo>::empty());
    while i < known.len()
        invariant
            i <= known@.len(),
            k == key.bytes@,
            out@ == start + peers_with_key(known@.take(i as int), k),
        decreases known@.len() - i,
    {
        assert(known@.take(i + 1).drop_last() =~= known@.take(i as int));
        let p = known[i];
        if p.pubkey.same_as(key) {
            out.push(p);
        }
        i = i + 1;
        assert(out@ =~= start + peers_with_key(known@.take(i as int), k));
    }
    assert(known@.take(known@.len() as int) =~= known@);
}

/// One tick of the reconnector: the known peers of every channel counterparty that is not
/// connected, to be connected to.
pub fn reconnect_targets(
    counterparties: &Vec<PublicKey>,
    connected: &Vec<PublicKey>,
    known: &Vec<PeerInfo>,
) -> (r: Vec<PeerInfo>)
    ensures
        r@ == reconnect_plan(counterparties@, connected@, known@),
{
    let mut out: Vec<PeerInfo> = Vec::new();
    let mut i: usize = 0;
    assert(reconnect_plan(counterparties@.take(0), connected@, known@) =~= Seq::<
        PeerInfo,
    >::empty());
    while i < counterparties.len()
        invariant
            i <= counterparties@.len(),
            out@ == reconnect_plan(counterparties@.take(i as int), connected@, known@),
        decreases counterparties@.len() - i,
    {
        let ghost before = out@;
        assert(counterparties@.take(i + 1).drop_last() =~= counterparties@.take(i as int));
        let key = &counterparties[i];
        if !is_connected(connected, key) {
            known_with_key(known, key, &mut out);
        }
        i = i + 1;
        assert(out@ =~= reconnect_plan(counterparties@.take(i as int), connected@, known@));
    }
    assert(counterparties@.take(counterparties@.len() as int) =~= counterparties@);
    out
}

/// The checks before a channel is opened to `PUBKEY@ADDRESS`: `NotRunning` where the node
/// does not run, else `PeerInfoParseFailed` where the text does not parse; otherwise the key
/// and the address text to connect to.
pub fn open_channel_request<'a>(lifecycle: &Lifecycle, peer: &'a str) -> (r: Result<
    (PublicKey, &'a str),
    Error,
>)
    ensures
        !lifecycle.is_running() ==> r == Err::<(PublicKey, &str), Error>(Error::NotRunning),
        lifecycle.is_running() ==> match first_at(peer@) {
            Some(i) => match pubkey_from_hex(peer@.take(i)) {
                Some(k) => r is Ok && r->Ok_0.0.bytes@ == k && r->Ok_0.1@ == peer@.skip(i + 1),
                None => r == Err::<(PublicKey, &str), Error>(Error::PeerInfoParseFailed),
            },
            None => r == Err::<(PublicKey, &str), Error>(Error::PeerInfoParseFailed),
        },
{
    if !lifecycle.running() {
        return Err(Error::NotRunning);
    }
    parse_peer_str(peer)
}

/// Where the opening of a channel stands.
#[derive(Debug, Clone, Copy, PartialEq, Eq, Structural)]
pub enum OpenStage {
    /// Waiting for the connection to the peer.
    Connecting,
    /// Waiting for the channel engine to accept the new channel.
    Creating,
    /// Waiting for the peer to be remembered.
    Saving,
    /// Finished.
    Done,
}

/// What happened since the last step of opening a channel.
#[derive(Debug, Clone, Copy, PartialEq, Eq)]
pub enum OpenEvent {
    /// The connection attempt ended: connected or not.
    Connected(bool),
    /// The channel engine accepted the channel or refused it.
    ChannelCreated(bool),
    /// Remembering the peer succeeded or failed.
    PeerSaved(Result<(), Error>),
}

/// What to do next to open a channel.
#[derive(Debug, Clone, Copy, PartialEq, Eq)]
pub enum OpenAction {
    /// Connect to the peer.
    Connect,
    /// Ask the channel engine to create the channel.
    CreateChannel,
    /// Remember the peer in the peer directory.
    SavePeer,
    /// Stop, with this result.
    Finish(Result<(), Error>),
}

/// The action owed at a stage: what is done while waiting there.
pub open spec fn stage_action(s: OpenStage) -> OpenAction {
    match s {
        OpenStage::Connecting => OpenAction::Connect,
        OpenStage::Creating => OpenAction::CreateChannel,
        OpenStage::Saving => OpenAction::SavePeer,
        OpenStage::Done => OpenAction::Finish(Err(Error::ChannelCreationFailed)),
    }
}

/// One step of opening a channel. A failed connection finishes with `ConnectionFailed`
/// before any channel is asked for; a refused channel with `ChannelCreationFailed`; a failed
/// save with its error; a saved peer with success. An event that does not belong to the
/// stage changes nothing and repeats what the stage owes.
pub open spec fn open_transition(s: OpenStage, e: OpenEvent) -> (OpenStage, OpenAction) {
    match (s, e) {
        (OpenStage::Connecting, OpenEvent::Connected(true)) => (
            OpenStage::Creating,
            OpenAction::CreateChannel,
        ),
        (OpenStage::Connecting, OpenEvent::Connected(false)) => (
            OpenStage::Done,
            OpenAction::Finish(Err(Error::ConnectionFailed)),
        ),
        (OpenStage::Creating, OpenEvent::ChannelCreated(true)) => (
            OpenStage::Saving,
            OpenAction::SavePeer,
        ),
        (OpenStage::Creating, OpenEvent::ChannelCreated(false)) => (
            OpenStage::Done,
            OpenAction::Finish(Err(Error::ChannelCreationFailed)),
        ),
        (OpenStage::Saving, OpenEvent::PeerSaved(res)) => (OpenStage::Done, OpenAction::Finish(res)),
        _ => (s, stage_action(s)),
    }
}

/// Decides the next step of opening a channel, as `open_transition` says.
pub fn open_channel_step(stage: OpenStage, event: OpenEvent) -> (r: (OpenStage, OpenAction))
    ensures
        r == open_transition(stage, event),
{
    match (stage, event) {
        (OpenStage::Connecting, OpenEvent::Connected(true)) => (
            OpenStage::Creating,
            OpenAction::CreateChannel,
        ),
        (OpenStage::Connecting, OpenEvent::Connected(false)) => (
            OpenStage::Done,
            OpenAction::Finish(Err(Error::ConnectionFailed)),
        ),
        (OpenStage::Creating, OpenEvent::ChannelCreated(true)) => (
            OpenStage::Saving,
            OpenAction::SavePeer,
        ),
        (OpenStage::Creating, OpenEvent::ChannelCreated(false)) => (
            OpenStage::Done,
            OpenAction::Finish(Err(Error::ChannelCreationFailed)),
        ),
        (OpenStage::Saving, OpenEvent::PeerSaved(res)) => (OpenStage::Done, OpenAction::Finish(res)),
        _ => {
            let action = match stage {
                OpenStage::Connecting => OpenAction::Connect,
                OpenStage::Creating => OpenAction::CreateChannel,
                OpenStage::Saving => OpenAction::SavePeer,
                OpenStage::Done => OpenAction::Finish(Err(Error::ChannelCreationFailed)),
            };
            (stage, action)
        },
    }
}

} // verus!
