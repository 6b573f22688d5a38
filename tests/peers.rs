use ldk_node::peer_store::{
    decode_peer_list, encode_peer_list, parse_peer_str, PeerAddress, PeerInfo, PeerStore,
};
use ldk_node::store::{BlobStore, MemoryStore, StoreKey};
use ldk_node::types::PublicKey;
use ldk_node::NodeError;

const G: &str = "0279be667ef9dcbbac55a06295ce870b07029bfcdb2dce28d959f2815b16f81798";
const G2: &str = "02C6047F9441ED7D6D3045406E95C07CD85C778E4B8CEF3CA7ABAC09B95C709EE5";

fn key(hex: &str) -> PublicKey {
    PublicKey::from_hex(hex).unwrap()
}

fn addr(last: u8, port: u16) -> PeerAddress {
    let mut ip = [0u8; 16];
    ip[10] = 0xff;
    ip[11] = 0xff;
    ip[12] = 127;
    ip[15] = last;
    PeerAddress { ip, port }
}

#[test]
fn pubkey_from_hex_accepts_both_cases() {
    let k = key(G);
    assert_eq!(k.bytes[0], 0x02);
    assert_eq!(k.bytes[1], 0x79);
    assert_eq!(k.bytes[32], 0x98);
    let k2 = key(G2);
    assert_eq!(k2.bytes[1], 0xc6);
    assert_eq!(k2.bytes[32], 0xe5);
}

#[test]
fn pubkey_from_hex_refuses_bad_input() {
    assert!(PublicKey::from_hex(&G[..64]).is_none());
    assert!(PublicKey::from_hex(&format!("{}00", G)).is_none());
    assert!(PublicKey::from_hex(&G.replace('7', "g")).is_none());
    let bad_prefix = format!("05{}", &G[2..]);
    assert!(PublicKey::from_hex(&bad_prefix).is_none());
}

#[test]
fn pubkey_from_hex_refuses_point_off_curve() {
    let on_curve_x = format!("02{}", "00".repeat(31) + "01");
    assert!(PublicKey::from_hex(&on_curve_x).is_some());
    let off_curve_x = format!("02{}", "00".repeat(31) + "05");
    assert!(PublicKey::from_hex(&off_curve_x).is_none());
}

#[test]
fn peer_str_parses() {
    let s = format!("{}@127.0.0.1:9735", G);
    let (k, a) = parse_peer_str(&s).unwrap();
    assert_eq!(k, key(G));
    assert_eq!(a, "127.0.0.1:9735");
    let s = format!("{}@host@x:1", G);
    let (_, a) = parse_peer_str(&s).unwrap();
    assert_eq!(a, "host@x:1");
}

#[test]
fn peer_str_parse_failures() {
    assert_eq!(parse_peer_str(G), Err(NodeError::PeerInfoParseFailed));
    assert_eq!(parse_peer_str("abc@127.0.0.1:9735"), Err(NodeError::PeerInfoParseFailed));
    assert_eq!(parse_peer_str(""), Err(NodeError::PeerInfoParseFailed));
}

#[test]
fn peer_add_then_reload_then_remove() {
    let p = PeerInfo { pubkey: key(G), address: addr(1, 9735) };
    let q = PeerInfo { pubkey: key(G2), address: addr(2, 9736) };
    let mut d = PeerStore::restore(MemoryStore::new()).unwrap();
    d.add_peer(p).unwrap();
    d.add_peer(q).unwrap();
    let d2 = PeerStore::restore(d.into_store()).unwrap();
    assert_eq!(d2.peers(), vec![p, q]);
    assert_eq!(d2.get_peer(&key(G)), Some(p));
    let mut d2 = d2;
    d2.remove_peer(&key(G)).unwrap();
    let d3 = PeerStore::restore(d2.into_store()).unwrap();
    assert_eq!(d3.peers(), vec![q]);
    assert_eq!(d3.get_peer(&key(G)), None);
}

#[test]
fn peer_add_overwrites_address() {
    let p = PeerInfo { pubkey: key(G), address: addr(1, 9735) };
    let p_moved = PeerInfo { pubkey: key(G), address: addr(5, 1000) };
    let q = PeerInfo { pubkey: key(G2), address: addr(2, 9736) };
    let mut d = PeerStore::restore(MemoryStore::new()).unwrap();
    d.add_peer(p).unwrap();
    d.add_peer(q).unwrap();
    d.add_peer(p_moved).unwrap();
    assert_eq!(d.peers(), vec![p_moved, q]);
}

#[test]
fn peer_remove_of_unknown_key_changes_nothing() {
    let p = PeerInfo { pubkey: key(G), address: addr(1, 9735) };
    let mut d = PeerStore::restore(MemoryStore::new()).unwrap();
    d.add_peer(p).unwrap();
    d.remove_peer(&key(G2)).unwrap();
    assert_eq!(d.peers(), vec![p]);
}

#[test]
fn peer_write_failure_is_reported() {
    let p = PeerInfo { pubkey: key(G), address: addr(1, 9735) };
    let mut store = MemoryStore::new();
    store.set_read_only(true);
    let mut d = PeerStore::restore(store).unwrap();
    assert_eq!(d.add_peer(p), Err(NodeError::PersistenceFailed));
    assert!(d.peers().is_empty());
}

#[test]
fn peer_record_layout_and_duplicates() {
    let p = PeerInfo { pubkey: key(G), address: addr(1, 0x2607) };
    let bytes = encode_peer_list(&vec![p]);
    assert_eq!(bytes.len(), 51);
    assert_eq!(&bytes[0..33], &p.pubkey.bytes);
    assert_eq!(bytes[49], 0x26);
    assert_eq!(bytes[50], 0x07);
    assert_eq!(decode_peer_list(&bytes), Some(vec![p]));
    assert_eq!(decode_peer_list(&bytes[..50].to_vec()), None);
    let mut twice = bytes.clone();
    twice.extend_from_slice(&bytes);
    let mut store = MemoryStore::new();
    store.write(StoreKey::Peers, &twice).unwrap();
    assert!(matches!(PeerStore::restore(store), Err(NodeError::PersistenceFailed)));
}
