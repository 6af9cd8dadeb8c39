//! Peers and the addresses at which they can be reached.

use crate::text;
use libp2p::multiaddr::{Multiaddr, Protocol};
use std::str::FromStr;
use vstd::prelude::*;

verus! {

/// What `libp2p` makes of a text that is to be a peer id: the id in base 58, if
/// the text is one.
pub uninterp spec fn parsed_peer_id(typed: Seq<char>) -> Option<Seq<char>>;

/// Whether some bytes are the binary form of a multiaddress of `libp2p`.
pub uninterp spec fn is_multiaddr(bytes: Seq<u8>) -> bool;

/// The binary form of a multiaddress with a peer id added as its last component,
/// as `libp2p` computes it.
pub uninterp spec fn multiaddr_with_peer(address: Seq<u8>, peer: Seq<char>) -> Seq<u8>;

/// `libp2p::PeerId::from_str`, and `to_base58` on what it returns. The outcome
/// depends on the text alone, and the base 58 form of an id is read as that id.
#[verifier::external_body]
fn parse_peer_id(typed: &str) -> (id: Option<String>)
    ensures
        match id {
            Some(id) => parsed_peer_id(typed@) == Some(id@) && parsed_peer_id(id@) == Some(id@),
            None => parsed_peer_id(typed@) is None,
        },
{
    match libp2p::PeerId::from_str(typed) {
        Ok(id) => Some(id.to_base58()),
        Err(_) => None,
    }
}

/// `Multiaddr::try_from` on a vector of bytes: whether it accepts them depends on
/// the bytes alone.
#[verifier::external_body]
fn accepted_as_multiaddr(bytes: &[u8]) -> (accepted: bool)
    ensures
        accepted == is_multiaddr(bytes@),
{
    Multiaddr::try_from(bytes.to_vec()).is_ok()
}

/// `Multiaddr::with` on a `Protocol::P2p`: the result depends on the address and
/// the peer id alone, is a multiaddress, and begins with the address.
#[verifier::external_body]
fn add_peer_to_multiaddr(address: &[u8], peer: &str) -> (extended: Vec<u8>)
    requires
        is_multiaddr(address@),
        parsed_peer_id(peer@) is Some,
    ensures
        extended@ == multiaddr_with_peer(address@, peer@),
        is_multiaddr(extended@),
        address@.is_prefix_of(extended@),
{
    let address = Multiaddr::try_from(address.to_vec()).expect("a multiaddress");
    let peer = libp2p::PeerId::from_str(peer).expect("a peer id");
    address.with(Protocol::P2p(peer)).to_vec()
}

/// The identity of a peer. Its view is its text in base 58, which is how it is
/// shown and typed.
#[derive(Debug, PartialEq, Eq)]
pub struct PeerId {
    base58: String,
}

impl View for PeerId {
    type V = Seq<char>;

    closed spec fn view(&self) -> Seq<char> {
        self.base58@
    }
}

impl PeerId {
    #[verifier::type_invariant]
    spec fn is_read_as_itself(self) -> bool {
        parsed_peer_id(self.base58@) == Some(self.base58@)
    }

    /// Reads a peer id that was typed or written down.
    pub fn parse(typed: &str) -> (id: Option<PeerId>)
        ensures
            match id {
                Some(id) => parsed_peer_id(typed@) == Some(id@),
                None => parsed_peer_id(typed@) is None,
            },
    {
        match parse_peer_id(typed) {
            Some(base58) => Some(PeerId { base58 }),
            None => None,
        }
    }

    /// The id as it is shown. Typed, it is read as the same id.
    pub fn to_text(&self) -> (shown: String)
        ensures
            shown@ == self@,
            parsed_peer_id(shown@) == Some(self@),
    {
        proof {
            use_type_invariant(self);
        }
        self.base58.clone()
    }

    /// Whether two ids are of the same peer.
    pub fn same(&self, other: &PeerId) -> (same: bool)
        ensures
            same == (self@ == other@),
    {
        text::same_text(self.base58.as_str(), other.base58.as_str())
    }
}

impl Clone for PeerId {
    fn clone(&self) -> (copy: PeerId)
        ensures
            copy == *self,
    {
        proof {
            use_type_invariant(self);
        }
        PeerId { base58: self.base58.clone() }
    }
}

/// The ids of a list of peers.
pub open spec fn ids(peers: Seq<PeerId>) -> Seq<Seq<char>> {
    Seq::new(peers.len(), |i: int| peers[i]@)
}

/// Whether a peer is on a list.
pub fn is_among(id: &PeerId, peers: &Vec<PeerId>) -> (found: bool)
    ensures
        found == ids(peers@).contains(id@),
{
    let mut i: usize = 0;
    while i < peers.len()
        invariant
            i <= peers@.len(),
            forall|k: int| 0 <= k < i ==> ids(peers@)[k] != id@,
        decreases peers@.len() - i,
    {
        if peers[i].same(id) {
            assert(ids(peers@)[i as int] == id@);
            return true;
        }
        i = i + 1;
    }
    false
}

/// A network address. Its view is its binary form as a multiaddress.
#[derive(Debug, PartialEq, Eq)]
pub struct Address {
    bytes: Vec<u8>,
}

impl View for Address {
    type V = Seq<u8>;

    closed spec fn view(&self) -> Seq<u8> {
        self.bytes@
    }
}

impl Address {
    #[verifier::type_invariant]
    spec fn is_well_formed(self) -> bool {
        is_multiaddr(self.bytes@)
    }

    /// The address with this binary form, if it is that of a multiaddress.
    pub fn from_bytes(bytes: Vec<u8>) -> (address: Option<Address>)
        ensures
            match address {
                Some(address) => is_multiaddr(bytes@) && address@ == bytes@,
                None => !is_multiaddr(bytes@),
            },
    {
        if accepted_as_multiaddr(bytes.as_slice()) {
            Some(Address { bytes })
        } else {
            None
        }
    }

    /// The binary form.
    pub fn to_bytes(&self) -> (bytes: Vec<u8>)
        ensures
            bytes@ == self@,
            is_multiaddr(bytes@),
    {
        proof {
            use_type_invariant(self);
        }
        let bytes = self.bytes.clone();
        assert(bytes@ =~= self.bytes@);
        bytes
    }

    /// The address with the id of the peer that is expected there added to it.
    pub fn with_peer(&self, peer: &PeerId) -> (extended: Address)
        ensures
            extended@ == multiaddr_with_peer(self@, peer@),
            self@.is_prefix_of(extended@),
    {
        proof {
            use_type_invariant(self);
            use_type_invariant(peer);
        }
        Address { bytes: add_peer_to_multiaddr(self.bytes.as_slice(), peer.base58.as_str()) }
    }

    /// Whether two addresses are the same.
    pub fn same(&self, other: &Address) -> (same: bool)
        ensures
            same == (self@ == other@),
    {
        text::same_bytes(self.bytes.as_slice(), other.bytes.as_slice())
    }
}

impl Clone for Address {
    fn clone(&self) -> (copy: Address)
        ensures
            copy@ == self@,
    {
        proof {
            use_type_invariant(self);
        }
        let bytes = self.bytes.clone();
        assert(bytes@ =~= self.bytes@);
        Address { bytes }
    }
}

/// The binary forms of a list of addresses.
pub open spec fn binary(addresses: Seq<Address>) -> Seq<Seq<u8>> {
    Seq::new(addresses.len(), |i: int| addresses[i]@)
}

/// The ids of a list are those of its peers, all of them and in their order, and so
/// are the binary forms of a list of addresses.
pub proof fn law_lists_keep_everything(peers: Seq<PeerId>, addresses: Seq<Address>)
    ensures
        ids(peers).len() == peers.len(),
        forall|i: int| 0 <= i < peers.len() ==> #[trigger] ids(peers)[i] == peers[i]@,
        binary(addresses).len() == addresses.len(),
        forall|i: int|
            0 <= i < addresses.len() ==> #[trigger] binary(addresses)[i] == addresses[i]@,
{
}

} // verus!
