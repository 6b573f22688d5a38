use ldk_node::connect::{
    is_connected, open_channel_step, poll_connection, ConnectStep, OpenAction, OpenEvent,
    OpenStage,
};
use ldk_node::lifecycle::{Lifecycle, TaskSet};
use ldk_node::payment::{PayAttempt, PaymentStore};
use ldk_node::peer_store::{PeerAddress, PeerInfo};
use ldk_node::store::MemoryStore;
use ldk_node::types::{Network, PaymentHash, PublicKey};
use ldk_node::{Builder, Config, Event, Node, NodeError, PaymentInfo, PaymentStatus};

const G: &str = "0279be667ef9dcbbac55a06295ce870b07029bfcdb2dce28d959f2815b16f81798";
const G2: &str = "02c6047f9441ed7d6d3045406e95c07cd85c778e4b8cef3ca7abac09b95c709ee5";
const G3: &str = "02f9308a019258c31049344f85f89d5229b531c845836f99b08601f113bce036f9";

fn key(hex: &str) -> PublicKey {
    PublicKey::from_hex(hex).unwrap()
}

fn node_with(config: Config) -> Node<MemoryStore> {
    Node::new(config, MemoryStore::new(), MemoryStore::new()).unwrap()
}

fn peer(hex: &str, port: u16) -> PeerInfo {
    PeerInfo { pubkey: key(hex), address: PeerAddress { ip: [1u8; 16], port } }
}

#[test]
fn builder_defaults() {
    let b = Builder::new();
    let c = b.config();
    assert_eq!(c.storage_dir_path, "/tmp/ldk_node/");
    assert_eq!(c.esplora_server_url, "http://localhost:3002");
    assert_eq!(c.network, Network::Regtest);
    assert_eq!(c.listening_address.as_deref(), Some("0.0.0.0:9735"));
    assert_eq!(c.default_cltv_expiry_delta, 144);
}

#[test]
fn config_default_values() {
    let c = Config::default();
    assert_eq!(c.storage_dir_path, "/tmp/ldk_node/");
    assert_eq!(c.network, Network::Regtest);
    assert_eq!(c.listening_address.as_deref(), Some("0.0.0.0:9735"));
    assert_eq!(c.default_cltv_expiry_delta, 144);
    let b = Builder::from_config(c);
    assert_eq!(b.config().esplora_server_url, "http://localhost:3002");
}

#[test]
fn builder_setters() {
    let mut b = Builder::new();
    b.set_storage_dir_path("/data".to_string())
        .set_esplora_server_url("https://example.org/api".to_string())
        .set_network("testnet")
        .set_listening_address("127.0.0.1:1234".to_string());
    let c = b.config();
    assert_eq!(c.storage_dir_path, "/data");
    assert_eq!(c.esplora_server_url, "https://example.org/api");
    assert_eq!(c.network, Network::Testnet);
    assert_eq!(c.listening_address.as_deref(), Some("127.0.0.1:1234"));
    b.set_network("nonsense");
    assert_eq!(b.config().network, Network::Regtest);
    let b2 = Builder::from_config(b.config().clone());
    assert_eq!(b2.config().storage_dir_path, "/data");
}

#[test]
fn network_names() {
    assert_eq!(Network::from_name("mainnet"), Ok(Network::Bitcoin));
    assert_eq!(Network::from_name("bitcoin"), Ok(Network::Bitcoin));
    assert_eq!(Network::from_name("testnet"), Ok(Network::Testnet));
    assert_eq!(Network::from_name("regtest"), Ok(Network::Regtest));
    assert_eq!(Network::from_name("signet"), Ok(Network::Signet));
    assert_eq!(Network::from_name("Mainnet"), Err(NodeError::NetworkInvalid));
}

#[test]
fn error_messages() {
    assert_eq!(NodeError::AlreadyRunning.message(), "Node is already running.");
    assert_eq!(NodeError::NotRunning.message(), "Node is not running.");
    assert_eq!(NodeError::ConnectionFailed.message(), "Network connection closed.");
    assert_eq!(NodeError::TxSyncFailed.message(), "Failed to sync transactions.");
    assert_eq!(NodeError::from_wallet_failure(true), NodeError::WalletSigningFailed);
    assert_eq!(NodeError::from_wallet_failure(false), NodeError::WalletOperationFailed);
}

#[test]
fn start_stop_alternate() {
    let mut n = node_with(Builder::new().config().clone());
    assert_eq!(n.stop(), Err(NodeError::NotRunning));
    let all = TaskSet { wallet_sync: true, chain_sync: true, listener: true, reconnector: true };
    assert_eq!(n.start(), Ok(all));
    assert_eq!(n.start(), Err(NodeError::AlreadyRunning));
    assert!(n.is_running_now());
    assert_eq!(n.stop(), Ok(all));
    assert_eq!(n.stop(), Err(NodeError::NotRunning));
    assert_eq!(n.start(), Ok(all));
    assert_eq!(n.stop(), Ok(all));
}

#[test]
fn start_without_listening_address() {
    let mut config = Builder::new().config().clone();
    config.listening_address = None;
    let mut n = node_with(config);
    let tasks = n.start().unwrap();
    assert!(!tasks.listener);
    assert!(tasks.wallet_sync && tasks.chain_sync && tasks.reconnector);
    assert_eq!(n.listening_address(), None);
    assert!(n.stop().is_ok());
}

#[test]
fn lifecycle_requires_running() {
    let mut l = Lifecycle::new();
    assert_eq!(l.require_running(), Err(NodeError::NotRunning));
    l.start(Builder::new().config()).unwrap();
    assert_eq!(l.require_running(), Ok(()));
}

#[test]
fn node_events_scenario() {
    let mut n = node_with(Builder::new().config().clone());
    let a = Event::PaymentFailed { payment_hash: PaymentHash([7u8; 32]) };
    let b = Event::PaymentSuccessful { payment_hash: PaymentHash([8u8; 32]) };
    let c = Event::PaymentFailed { payment_hash: PaymentHash([9u8; 32]) };
    n.push_event(a).unwrap();
    n.push_event(b).unwrap();
    n.push_event(c).unwrap();
    assert_eq!(n.next_event(), Some(a));
    assert_eq!(n.next_event(), Some(a));
    assert_eq!(n.next_event(), Some(a));
    n.event_handled().unwrap();
    assert_eq!(n.next_event(), Some(b));
}

#[test]
fn connect_open_channel_checks() {
    let mut n = node_with(Builder::new().config().clone());
    let s = format!("{}@10.0.0.1:9735", G);
    assert_eq!(n.connect_open_channel(&s), Err(NodeError::NotRunning));
    n.start().unwrap();
    let (k, a) = n.connect_open_channel(&s).unwrap();
    assert_eq!(k, key(G));
    assert_eq!(a, "10.0.0.1:9735");
    assert_eq!(n.connect_open_channel("nokey"), Err(NodeError::PeerInfoParseFailed));
}

#[test]
fn unreachable_peer_fails_without_channel_attempt() {
    let (stage, action) = open_channel_step(OpenStage::Connecting, OpenEvent::Connected(false));
    assert_eq!(stage, OpenStage::Done);
    assert_eq!(action, OpenAction::Finish(Err(NodeError::ConnectionFailed)));
    let (stage, action) = open_channel_step(stage, OpenEvent::ChannelCreated(true));
    assert_eq!(stage, OpenStage::Done);
    assert_ne!(action, OpenAction::CreateChannel);
}

#[test]
fn channel_open_full_flow() {
    let (s, a) = open_channel_step(OpenStage::Connecting, OpenEvent::Connected(true));
    assert_eq!((s, a), (OpenStage::Creating, OpenAction::CreateChannel));
    let (s2, a2) = open_channel_step(s, OpenEvent::ChannelCreated(false));
    assert_eq!((s2, a2), (OpenStage::Done, OpenAction::Finish(Err(NodeError::ChannelCreationFailed))));
    let (s, a) = open_channel_step(s, OpenEvent::ChannelCreated(true));
    assert_eq!((s, a), (OpenStage::Saving, OpenAction::SavePeer));
    let (s, a) = open_channel_step(s, OpenEvent::PeerSaved(Ok(())));
    assert_eq!((s, a), (OpenStage::Done, OpenAction::Finish(Ok(()))));
    let (s, a) = open_channel_step(OpenStage::Saving, OpenEvent::Connected(true));
    assert_eq!((s, a), (OpenStage::Saving, OpenAction::SavePeer));
}

#[test]
fn connection_polling() {
    let connected = vec![key(G2)];
    assert!(is_connected(&connected, &key(G2)));
    assert!(!is_connected(&connected, &key(G)));
    assert_eq!(poll_connection(true, &connected, &key(G2)), ConnectStep::Failed);
    assert_eq!(poll_connection(false, &connected, &key(G2)), ConnectStep::Connected);
    assert_eq!(poll_connection(false, &connected, &key(G)), ConnectStep::Wait);
}

#[test]
fn reconnector_targets_disconnected_channel_peers() {
    let mut n = node_with(Builder::new().config().clone());
    n.remember_peer(peer(G, 1)).unwrap();
    n.remember_peer(peer(G2, 2)).unwrap();
    n.remember_peer(peer(G3, 3)).unwrap();
    let counterparties = vec![key(G3), key(G), key(G2)];
    let connected = vec![key(G)];
    assert_eq!(n.reconnect_targets(&counterparties, &connected), vec![peer(G3, 3), peer(G2, 2)]);
    n.forget_peer(&key(G3)).unwrap();
    assert_eq!(n.reconnect_targets(&counterparties, &connected), vec![peer(G2, 2)]);
    assert_eq!(n.peers(), vec![peer(G, 1), peer(G2, 2)]);
}

#[test]
fn payments_are_recorded_and_looked_up() {
    let mut n = node_with(Builder::new().config().clone());
    let h = PaymentHash([5u8; 32]);
    assert_eq!(n.record_invoice_payment(PayAttempt::NoRoute, h, None, Some(1)), Err(NodeError::RoutingFailed));
    assert_eq!(n.payment_info(&h.0), None);
    assert_eq!(
        n.record_invoice_payment(PayAttempt::InvoiceRejected, h, None, Some(1)),
        Err(NodeError::InvoiceInvalid)
    );
    assert_eq!(n.record_invoice_payment(PayAttempt::SendingFailed, h, Some([6u8; 32]), Some(1000)), Ok(h));
    let info = n.payment_info(&h.0).unwrap();
    assert_eq!(info.status, PaymentStatus::Failed);
    assert_eq!(info.secret, Some([6u8; 32]));
    assert_eq!(info.amount_msat, Some(1000));
    n.record_invoice_issued(h, [1u8; 32], None);
    assert_eq!(n.payment_info(&h.0).unwrap().status, PaymentStatus::Failed);
    let h2 = PaymentHash([11u8; 32]);
    n.record_invoice_issued(h2, [2u8; 32], Some(5));
    assert_eq!(
        n.payment_info(&h2.0),
        Some(PaymentInfo { preimage: None, secret: Some([2u8; 32]), status: PaymentStatus::Pending, amount_msat: Some(5) })
    );
}

#[test]
fn spontaneous_payment_hash_is_sha256_of_preimage() {
    let mut n = node_with(Builder::new().config().clone());
    let h = n.record_spontaneous_payment(PayAttempt::Initiated, [0u8; 32], 2500).unwrap();
    let expected = [
        0x66, 0x68, 0x7a, 0xad, 0xf8, 0x62, 0xbd, 0x77, 0x6c, 0x8f, 0xc1, 0x8b, 0x8e, 0x9f, 0x8e,
        0x20, 0x08, 0x97, 0x14, 0x85, 0x6e, 0xe2, 0x33, 0xb3, 0x90, 0x2a, 0x59, 0x1d, 0x0d, 0x5f,
        0x29, 0x25,
    ];
    assert_eq!(h.0, expected);
    let info = n.payment_info(&expected).unwrap();
    assert_eq!(info.status, PaymentStatus::Pending);
    assert_eq!(info.amount_msat, Some(2500));
    assert_eq!(info.secret, None);
}

#[test]
fn payment_store_keeps_latest() {
    let mut s = PaymentStore::new();
    let h = PaymentHash([1u8; 32]);
    let first = PaymentInfo { preimage: None, secret: None, status: PaymentStatus::Pending, amount_msat: None };
    let second = PaymentInfo { status: PaymentStatus::Succeeded, ..first };
    s.insert(h, first);
    s.insert(PaymentHash([2u8; 32]), first);
    s.insert(h, second);
    assert_eq!(s.get(&h), Some(second));
    assert_eq!(s.get(&PaymentHash([3u8; 32])), None);
}

#[test]
fn node_reloads_from_stores() {
    let mut n = node_with(Builder::new().config().clone());
    let e1 = Event::ChannelReady {
        channel_id: ldk_node::ChannelId([1u8; 32]),
        user_channel_id: ldk_node::UserChannelId(77),
    };
    let e2 = Event::PaymentReceived { payment_hash: PaymentHash([3u8; 32]), amount_msat: 9 };
    n.push_event(e1).unwrap();
    n.push_event(e2).unwrap();
    n.remember_peer(peer(G, 9)).unwrap();
    n.start().unwrap();
    assert_eq!(n.default_cltv_expiry_delta(), 144);
    let (events, peers) = n.into_stores();
    let mut n2 = Node::new(Config::default(), events, peers).unwrap();
    assert!(!n2.is_running_now());
    assert_eq!(n2.next_event(), Some(e1));
    assert_eq!(n2.peers(), vec![peer(G, 9)]);
    n2.event_handled().unwrap();
    let (events, peers) = n2.into_stores();
    let n3 = Node::new(Config::default(), events, peers).unwrap();
    assert_eq!(n3.next_event(), Some(e2));
}
