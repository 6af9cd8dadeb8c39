use file_sharing::address_book::{AddressBook, NoRoute};
use file_sharing::peer::{is_among, Address, PeerId};
use file_sharing::peer_map::PeerMap;
use libp2p::multiaddr::{Multiaddr, Protocol};

const FIRST: &str = "QmNnooDu7bfjFPoTZYxMNLWUQJyrVwtbZg5gBMjTezGAJN";
const SECOND: &str = "QmaCpDMGvV2BGHeYERUEnRQAwe3N8SzbUtfsmvsqQLuvuJ";

fn peer(id: &str) -> PeerId {
    PeerId::parse(id).unwrap()
}

fn multiaddr(text: &str) -> Multiaddr {
    text.parse().unwrap()
}

fn address(text: &str) -> Address {
    Address::from_bytes(multiaddr(text).to_vec()).unwrap()
}

fn addresses(list: &[(&str, &str)]) -> Vec<(PeerId, Address)> {
    list.iter().map(|(id, text)| (peer(id), address(text))).collect()
}

#[test]
fn peer_ids_are_read() {
    assert_eq!(peer(FIRST).to_text(), FIRST);
    assert!(PeerId::parse("").is_none());
    assert!(PeerId::parse("somebody").is_none());
    assert!(PeerId::parse(&FIRST[1..]).is_none());
    assert!(PeerId::parse("0OIl").is_none());
}

#[test]
fn peer_ids_are_read_as_libp2p_reads_them() {
    let keys = libp2p::identity::Keypair::ed25519_from_bytes([7u8; 32]).unwrap();
    let id = keys.public().to_peer_id();
    assert_eq!(peer(&id.to_string()).to_text(), id.to_base58());
    for typed in [FIRST, SECOND, "12D3KooW", " ", "QmNnoo"] {
        assert_eq!(
            PeerId::parse(typed).map(|id| id.to_text()),
            typed.parse::<libp2p::PeerId>().ok().map(|id| id.to_base58())
        );
    }
}

#[test]
fn shown_peer_ids_are_read_back() {
    for id in [FIRST, SECOND] {
        assert_eq!(peer(&peer(id).to_text()), peer(id));
    }
}

#[test]
fn peers_are_told_apart() {
    assert!(peer(FIRST).same(&peer(FIRST)));
    assert!(!peer(FIRST).same(&peer(SECOND)));
    assert!(peer(FIRST).clone().same(&peer(FIRST)));
    assert!(is_among(&peer(SECOND), &vec![peer(FIRST), peer(SECOND)]));
    assert!(!is_among(&peer(SECOND), &vec![peer(FIRST)]));
    assert!(!is_among(&peer(SECOND), &vec![]));
}

#[test]
fn addresses_are_multiaddresses() {
    let bytes = vec![4, 127, 0, 0, 1, 6, 0x0f, 0xa1];
    let address = Address::from_bytes(bytes.clone()).unwrap();
    assert_eq!(address.to_bytes(), bytes);
    assert_eq!(multiaddr("/ip4/127.0.0.1/tcp/4001").to_vec(), bytes);
    assert!(Address::from_bytes(vec![4, 127, 0, 0]).is_none());
    assert!(Address::from_bytes(vec![0xff, 0xff]).is_none());
}

#[test]
fn addresses_are_told_apart() {
    let here = address("/ip4/127.0.0.1/tcp/4001");
    let there = address("/ip4/127.0.0.1/tcp/4002");
    assert!(here.same(&here.clone()));
    assert!(!here.same(&there));
}

#[test]
fn an_address_with_its_peer() {
    let text = "/ip4/10.0.0.2/tcp/4001";
    let extended = address(text).with_peer(&peer(FIRST)).to_bytes();
    let id: libp2p::PeerId = FIRST.parse().unwrap();
    assert_eq!(extended, multiaddr(text).with(Protocol::P2p(id)).to_vec());
    assert_eq!(Multiaddr::try_from(extended.clone()).unwrap().to_string(), format!("{}/p2p/{}", text, FIRST));
    assert!(extended.starts_with(&multiaddr(text).to_vec()));
    assert_ne!(extended, address(text).with_peer(&peer(SECOND)).to_bytes());
}

#[test]
fn a_map_of_peers() {
    let mut map: PeerMap<u32> = PeerMap::new();
    assert_eq!(map.get(&peer(FIRST)), None);
    assert_eq!(map.insert(peer(FIRST), 1), None);
    assert_eq!(map.insert(peer(SECOND), 2), None);
    assert_eq!(map.insert(peer(FIRST), 3), Some(1));
    assert_eq!(map.get(&peer(FIRST)), Some(&3));
    assert_eq!(map.get(&peer(SECOND)), Some(&2));
    assert_eq!(map.remove(&peer(FIRST)), Some(3));
    assert_eq!(map.remove(&peer(FIRST)), None);
    assert_eq!(map.get(&peer(SECOND)), Some(&2));
}

#[test]
fn routes() {
    let mut book = AddressBook::new();
    assert_eq!(book.route(&peer(FIRST)), Err(NoRoute::UnknownPeer));
    book.discover(&addresses(&[
        (FIRST, "/ip4/10.0.0.1/tcp/1"),
        (SECOND, "/ip4/10.0.0.2/tcp/2"),
        (FIRST, "/ip4/10.0.0.1/tcp/3"),
    ]));
    assert_eq!(book.route(&peer(FIRST)), Ok(&address("/ip4/10.0.0.1/tcp/1")));
    assert_eq!(book.route(&peer(SECOND)), Ok(&address("/ip4/10.0.0.2/tcp/2")));
}

#[test]
fn discovery_does_not_change_the_route() {
    let mut book = AddressBook::new();
    book.discover(&addresses(&[(FIRST, "/ip4/10.0.0.1/tcp/1")]));
    book.discover(&addresses(&[(FIRST, "/ip4/10.0.0.1/tcp/2")]));
    assert_eq!(book.route(&peer(FIRST)), Ok(&address("/ip4/10.0.0.1/tcp/1")));
}

#[test]
fn expired_addresses_are_no_routes() {
    let mut book = AddressBook::new();
    book.discover(&addresses(&[
        (FIRST, "/ip4/10.0.0.1/tcp/1"),
        (FIRST, "/ip4/10.0.0.1/tcp/2"),
        (FIRST, "/ip4/10.0.0.1/tcp/1"),
    ]));
    let noted = book.expire(&addresses(&[(FIRST, "/ip4/10.0.0.1/tcp/1")]));
    assert_eq!(noted, addresses(&[(FIRST, "/ip4/10.0.0.1/tcp/1")]));
    assert_eq!(book.route(&peer(FIRST)), Ok(&address("/ip4/10.0.0.1/tcp/2")));
    book.expire(&addresses(&[(FIRST, "/ip4/10.0.0.1/tcp/2")]));
    assert_eq!(book.route(&peer(FIRST)), Err(NoRoute::NoAddress));
}

#[test]
fn only_known_peers_expire() {
    let mut book = AddressBook::new();
    book.discover(&addresses(&[(FIRST, "/ip4/10.0.0.1/tcp/1")]));
    let noted = book.expire(&addresses(&[
        (SECOND, "/ip4/10.0.0.2/tcp/2"),
        (FIRST, "/ip4/10.0.0.9/tcp/9"),
    ]));
    assert_eq!(noted, addresses(&[(FIRST, "/ip4/10.0.0.9/tcp/9")]));
    assert_eq!(book.route(&peer(FIRST)), Ok(&address("/ip4/10.0.0.1/tcp/1")));
    assert_eq!(book.route(&peer(SECOND)), Err(NoRoute::UnknownPeer));
}

#[test]
fn expiry_undoes_discovery() {
    let mut book = AddressBook::new();
    book.discover(&addresses(&[(FIRST, "/ip4/10.0.0.1/tcp/1")]));
    let new = addresses(&[
        (FIRST, "/ip4/10.0.0.1/tcp/2"),
        (SECOND, "/ip4/10.0.0.2/tcp/1"),
        (FIRST, "/ip4/10.0.0.1/tcp/2"),
    ]);
    book.discover(&new);
    book.expire(&new);
    assert_eq!(book.route(&peer(FIRST)), Ok(&address("/ip4/10.0.0.1/tcp/1")));
    assert_eq!(book.route(&peer(SECOND)), Err(NoRoute::NoAddress));
    book.expire(&addresses(&[(FIRST, "/ip4/10.0.0.1/tcp/1")]));
    assert_eq!(book.route(&peer(FIRST)), Err(NoRoute::NoAddress));
}

#[test]
fn messages_of_missing_routes() {
    assert_eq!(NoRoute::UnknownPeer.message(), "Peer was not in address map");
    assert_eq!(NoRoute::NoAddress.message(), "Peer address list was empty");
}
