use ldk_node::event::{decode_event_list, encode_event_list, Event, EventQueue};
use ldk_node::store::{BlobStore, MemoryStore, StoreKey};
use ldk_node::types::{ChannelId, PaymentHash, UserChannelId};
use ldk_node::NodeError;

fn ev_a() -> Event {
    Event::PaymentSuccessful { payment_hash: PaymentHash([1u8; 32]) }
}

fn ev_b() -> Event {
    Event::PaymentReceived { payment_hash: PaymentHash([2u8; 32]), amount_msat: 42_000 }
}

fn ev_c() -> Event {
    Event::ChannelClosed {
        channel_id: ChannelId([3u8; 32]),
        user_channel_id: UserChannelId(u128::MAX - 7),
    }
}

fn ev_d() -> Event {
    Event::ChannelReady { channel_id: ChannelId([4u8; 32]), user_channel_id: UserChannelId(9) }
}

#[test]
fn next_event_repeats_head_until_handled() {
    let mut q = EventQueue::restore(MemoryStore::new()).unwrap();
    q.push(ev_a()).unwrap();
    q.push(ev_b()).unwrap();
    q.push(ev_c()).unwrap();
    assert_eq!(q.next_event(), Some(ev_a()));
    assert_eq!(q.next_event(), Some(ev_a()));
    assert_eq!(q.next_event(), Some(ev_a()));
    q.event_handled().unwrap();
    assert_eq!(q.next_event(), Some(ev_b()));
}

#[test]
fn handled_promotes_second_oldest() {
    let mut q = EventQueue::restore(MemoryStore::new()).unwrap();
    q.push(ev_c()).unwrap();
    q.push(ev_d()).unwrap();
    q.event_handled().unwrap();
    assert_eq!(q.next_event(), Some(ev_d()));
    q.event_handled().unwrap();
    assert_eq!(q.next_event(), None);
    q.event_handled().unwrap();
    assert_eq!(q.len(), 0);
}

#[test]
fn reload_keeps_pending_in_order() {
    let mut q = EventQueue::restore(MemoryStore::new()).unwrap();
    for e in [ev_a(), ev_b(), ev_c(), ev_d()] {
        q.push(e).unwrap();
    }
    q.event_handled().unwrap();
    let before = q.pending_events();
    let store = q.into_store();
    let reloaded = EventQueue::restore(store).unwrap();
    assert_eq!(reloaded.pending_events(), before);
    assert_eq!(reloaded.pending_events(), vec![ev_b(), ev_c(), ev_d()]);
}

#[test]
fn reload_of_empty_store_is_empty() {
    let q = EventQueue::restore(MemoryStore::new()).unwrap();
    assert_eq!(q.next_event(), None);
    assert_eq!(q.len(), 0);
}

#[test]
fn failed_write_keeps_queue_unchanged() {
    let mut store = MemoryStore::new();
    store.set_read_only(true);
    let mut q = EventQueue::restore(store).unwrap();
    assert_eq!(q.push(ev_a()), Err(NodeError::PersistenceFailed));
    assert_eq!(q.next_event(), None);
}

#[test]
fn failed_ack_redelivers_head() {
    let mut q = EventQueue::restore(MemoryStore::new()).unwrap();
    q.push(ev_a()).unwrap();
    q.push(ev_b()).unwrap();
    let mut store = q.into_store();
    store.set_read_only(true);
    let mut q = EventQueue::restore(store).unwrap();
    assert_eq!(q.event_handled(), Err(NodeError::PersistenceFailed));
    assert_eq!(q.next_event(), Some(ev_a()));
    assert_eq!(q.len(), 2);
}

#[test]
fn corrupted_events_are_refused() {
    let mut store = MemoryStore::new();
    store.write(StoreKey::Events, &vec![0u8; 48]).unwrap();
    assert!(matches!(EventQueue::restore(store), Err(NodeError::PersistenceFailed)));
    let mut store = MemoryStore::new();
    let mut bytes = vec![9u8];
    bytes.extend_from_slice(&[0u8; 48]);
    store.write(StoreKey::Events, &bytes).unwrap();
    assert!(matches!(EventQueue::restore(store), Err(NodeError::PersistenceFailed)));
}

#[test]
fn event_record_layout() {
    let bytes = encode_event_list(&vec![ev_b()]);
    assert_eq!(bytes.len(), 49);
    assert_eq!(bytes[0], 2);
    assert_eq!(&bytes[1..33], &[2u8; 32]);
    let mut amount = [0u8; 16];
    amount[8..].copy_from_slice(&42_000u64.to_be_bytes());
    assert_eq!(&bytes[33..49], &amount);
    assert_eq!(decode_event_list(&bytes), Some(vec![ev_b()]));
}

#[test]
fn event_list_round_trip() {
    let events = vec![ev_a(), ev_b(), ev_c(), ev_d(), Event::PaymentFailed {
        payment_hash: PaymentHash([0xffu8; 32]),
    }];
    let bytes = encode_event_list(&events);
    assert_eq!(bytes.len(), 49 * 5);
    assert_eq!(&bytes[3 * 49 - 16..3 * 49], &(u128::MAX - 7).to_be_bytes());
    assert_eq!(decode_event_list(&bytes), Some(events));
    assert_eq!(decode_event_list(&Vec::new()), Some(Vec::new()));
}

#[test]
fn noncanonical_record_is_refused() {
    let mut bytes = encode_event_list(&vec![ev_a()]);
    bytes[48] = 1;
    assert_eq!(decode_event_list(&bytes), None);
    let mut bytes = encode_event_list(&vec![ev_b()]);
    bytes[40] = 1;
    assert_eq!(decode_event_list(&bytes), None);
}
