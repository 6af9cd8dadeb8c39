//! The addresses at which other peers were discovered.

use crate::peer;
use crate::peer::{Address, PeerId};
use crate::peer_map::PeerMap;
use vstd::prelude::*;

verus! {

/// Which addresses are known of which peers.
pub type KnownAddresses = Map<Seq<char>, Seq<Seq<u8>>>;

/// A list of peers and addresses, in terms of values.
pub open spec fn sightings(list: Seq<(PeerId, Address)>) -> Seq<(Seq<char>, Seq<u8>)> {
    Seq::new(list.len(), |i: int| (list[i].0@, list[i].1@))
}

/// The addresses that are known of a peer.
pub open spec fn known(book: KnownAddresses, id: Seq<char>) -> Seq<Seq<u8>> {
    if book.contains_key(id) {
        book[id]
    } else {
        Seq::empty()
    }
}

/// A peer was discovered at an address, which goes behind those known before.
pub open spec fn with_sighting(
    book: KnownAddresses,
    id: Seq<char>,
    address: Seq<u8>,
) -> KnownAddresses {
    book.insert(id, known(book, id).push(address))
}

/// Peers were discovered, one after another.
pub open spec fn after_discovery(
    book: KnownAddresses,
    list: Seq<(Seq<char>, Seq<u8>)>,
) -> KnownAddresses
    decreases list.len(),
{
    if list.len() == 0 {
        book
    } else {
        with_sighting(after_discovery(book, list.drop_last()), list.last().0, list.last().1)
    }
}

/// What all addresses but one are.
pub open spec fn other_than(address: Seq<u8>) -> spec_fn(Seq<u8>) -> bool {
    |other: Seq<u8>| other != address
}

/// All addresses but one, in their order.
pub open spec fn without_address(addresses: Seq<Seq<u8>>, address: Seq<u8>) -> Seq<Seq<u8>> {
    addresses.filter(other_than(address))
}

/// A peer is no longer at an address. It stays known, even with no address left.
pub open spec fn without_sighting(
    book: KnownAddresses,
    id: Seq<char>,
    address: Seq<u8>,
) -> KnownAddresses {
    if book.contains_key(id) {
        book.insert(id, without_address(book[id], address))
    } else {
        book
    }
}

/// Addresses of peers expired, one after another.
pub open spec fn after_expiry(
    book: KnownAddresses,
    list: Seq<(Seq<char>, Seq<u8>)>,
) -> KnownAddresses
    decreases list.len(),
{
    if list.len() == 0 {
        book
    } else {
        without_sighting(after_expiry(book, list.drop_last()), list.last().0, list.last().1)
    }
}

/// The sightings of peers that were known.
pub open spec fn of_known_peers(
    book: KnownAddresses,
    list: Seq<(Seq<char>, Seq<u8>)>,
) -> Seq<(Seq<char>, Seq<u8>)> {
    list.filter(|sighting: (Seq<char>, Seq<u8>)| book.contains_key(sighting.0))
}

/// Why there is no address for a peer.
#[derive(Debug, Clone, Copy, PartialEq, Eq, Structural)]
pub enum NoRoute {
    /// The peer was never discovered.
    UnknownPeer,
    /// All addresses of the peer have expired.
    NoAddress,
}

impl NoRoute {
    /// The message for the user.
    pub fn message(&self) -> (shown: String)
        ensures
            match *self {
                NoRoute::UnknownPeer => shown@ == "Peer was not in address map"@,
                NoRoute::NoAddress => shown@ == "Peer address list was empty"@,
            },
    {
        match self {
            NoRoute::UnknownPeer => "Peer was not in address map".to_owned(),
            NoRoute::NoAddress => "Peer address list was empty".to_owned(),
        }
    }
}

/// The addresses that are not this one.
fn other_addresses(addresses: Vec<Address>, address: &Address) -> (rest: Vec<Address>)
    ensures
        peer::binary(rest@) == without_address(peer::binary(addresses@), address@),
{
    let ghost all = peer::binary(addresses@);
    let ghost keep = other_than(address@);
    let mut rest: Vec<Address> = Vec::new();
    let mut i: usize = 0;
    assert(all.take(0) =~= Seq::empty());
    assert(peer::binary(rest@) =~= all.take(0).filter(keep)) by {
        reveal(Seq::filter);
    }
    while i < addresses.len()
        invariant
            i <= addresses@.len(),
            all == peer::binary(addresses@),
            keep == other_than(address@),
            peer::binary(rest@) == all.take(i as int).filter(keep),
        decreases addresses@.len() - i,
    {
        let ghost before = peer::binary(rest@);
        assert(all.take(i + 1).drop_last() =~= all.take(i as int));
        proof {
            reveal(Seq::filter);
        }
        if !addresses[i].same(address) {
            rest.push(addresses[i].clone());
            assert(peer::binary(rest@) =~= before.push(addresses@[i as int]@));
        }
        i = i + 1;
    }
    assert(all.take(i as int) =~= all);
    rest
}

/// The addresses of other peers, for each of them in the order of discovery.
pub struct AddressBook {
    map: PeerMap<Vec<Address>>,
}

impl View for AddressBook {
    type V = KnownAddresses;

    closed spec fn view(&self) -> KnownAddresses {
        self.map@.map_values(|list: Vec<Address>| peer::binary(list@))
    }
}

impl AddressBook {
    /// The book of no addresses.
    pub fn new() -> (book: AddressBook)
        ensures
            book@ == KnownAddresses::empty(),
    {
        let book = AddressBook { map: PeerMap::new() };
        assert(book@ =~= KnownAddresses::empty());
        book
    }

    /// The address of a peer that was discovered first.
    pub fn route(&self, peer: &PeerId) -> (address: Result<&Address, NoRoute>)
        ensures
            match address {
                Ok(address) => known(self@, peer@).len() > 0 && address@ == known(
                    self@,
                    peer@,
                )[0],
                Err(NoRoute::UnknownPeer) => !self@.contains_key(peer@),
                Err(NoRoute::NoAddress) => self@.contains_key(peer@) && self@[peer@].len() == 0,
            },
    {
        match self.map.get(peer) {
            Some(list) => {
                if list.len() == 0 {
                    Err(NoRoute::NoAddress)
                } else {
                    Ok(&list[0])
                }
            },
            None => Err(NoRoute::UnknownPeer),
        }
    }

    /// Notes that peers were discovered.
    pub fn discover(&mut self, list: &Vec<(PeerId, Address)>)
        ensures
            final(self)@ == after_discovery(old(self)@, sightings(list@)),
    {
        let ghost book = self@;
        let ghost all = sightings(list@);
        let mut i: usize = 0;
        assert(all.take(0) =~= Seq::empty());
        while i < list.len()
            invariant
                i <= list@.len(),
                all == sightings(list@),
                self@ == after_discovery(book, all.take(i as int)),
            decreases list@.len() - i,
        {
            let ghost before = self@;
            assert(all.take(i + 1).drop_last() =~= all.take(i as int));
            let peer = list[i].0.clone();
            let mut addresses: Vec<Address> = match self.map.remove(&peer) {
                Some(addresses) => addresses,
                None => Vec::new(),
            };
            assert(peer::binary(addresses@) =~= known(before, peer@));
            let ghost earlier = peer::binary(addresses@);
            addresses.push(list[i].1.clone());
            assert(peer::binary(addresses@) =~= earlier.push(list@[i as int].1@));
            self.map.insert(peer, addresses);
            assert(self@ =~= with_sighting(before, peer@, list@[i as int].1@));
            i = i + 1;
        }
        assert(all.take(i as int) =~= all);
    }

    /// Notes that addresses of peers expired, and returns those of known peers.
    pub fn expire(&mut self, list: &Vec<(PeerId, Address)>) -> (noted: Vec<(PeerId, Address)>)
        ensures
            final(self)@ == after_expiry(old(self)@, sightings(list@)),
            sightings(noted@) == of_known_peers(old(self)@, sightings(list@)),
    {
        let ghost book = self@;
        let ghost all = sightings(list@);
        let ghost keep = |sighting: (Seq<char>, Seq<u8>)| book.contains_key(sighting.0);
        let mut noted: Vec<(PeerId, Address)> = Vec::new();
        let mut i: usize = 0;
        assert(all.take(0) =~= Seq::empty());
        assert(sightings(noted@) =~= all.take(0).filter(keep)) by {
            reveal(Seq::filter);
        }
        while i < list.len()
            invariant
                i <= list@.len(),
                all == sightings(list@),
                keep == (|sighting: (Seq<char>, Seq<u8>)| book.contains_key(sighting.0)),
                self@ == after_expiry(book, all.take(i as int)),
                self@.dom() == book.dom(),
                sightings(noted@) == all.take(i as int).filter(keep),
            decreases list@.len() - i,
        {
            let ghost before = self@;
            let ghost earlier = sightings(noted@);
            assert(all.take(i + 1).drop_last() =~= all.take(i as int));
            proof {
                reveal(Seq::filter);
                assert(book.contains_key(all[i as int].0) == before.contains_key(all[i as int].0));
            }
            let peer = list[i].0.clone();
            if let Some(addresses) = self.map.remove(&peer) {
                let rest = other_addresses(addresses, &list[i].1);
                noted.push((peer.clone(), list[i].1.clone()));
                assert(sightings(noted@) =~= earlier.push(all[i as int]));
                self.map.insert(peer, rest);
            }
            assert(self@ =~= without_sighting(
                before,
                all[i as int].0,
                all[i as int].1,
            ));
            assert(self@.dom() =~= book.dom());
            i = i + 1;
        }
        assert(all.take(i as int) =~= all);
        noted
    }
}

/// Discovery only ever adds: the addresses known of a peer stay, in their order,
/// in front of the new ones. So the address that is dialed stays the same.
pub proof fn law_discovery_adds_behind(
    book: KnownAddresses,
    list: Seq<(Seq<char>, Seq<u8>)>,
    id: Seq<char>,
)
    ensures
        known(book, id).is_prefix_of(known(after_discovery(book, list), id)),
        book.contains_key(id) ==> after_discovery(book, list).contains_key(id),
    decreases list.len(),
{
    if list.len() > 0 {
        law_discovery_adds_behind(book, list.drop_last(), id);
    }
}

/// Every discovered address is known of its peer, and nothing is known that was
/// neither known before nor discovered.
pub proof fn law_discovered_addresses_are_known(
    book: KnownAddresses,
    list: Seq<(Seq<char>, Seq<u8>)>,
    id: Seq<char>,
    address: Seq<u8>,
)
    ensures
        known(after_discovery(book, list), id).contains(address) <==> (known(book, id).contains(
            address,
        ) || list.contains((id, address))),
    decreases list.len(),
{
    if list.len() > 0 {
        let rest = list.drop_last();
        law_discovered_addresses_are_known(book, rest, id, address);
        let before = known(after_discovery(book, rest), id);
        let after = known(after_discovery(book, list), id);
        assert(list =~= rest.push(list.last()));
        lemma_push_contains(rest, list.last(), (id, address));
        if list.last().0 == id {
            lemma_push_contains(before, list.last().1, address);
            assert(after == before.push(list.last().1));
        }
    }
}

proof fn lemma_push_contains<A>(s: Seq<A>, last: A, x: A)
    ensures
        s.push(last).contains(x) <==> s.contains(x) || x == last,
{
    let longer = s.push(last);
    if s.contains(x) {
        let i = choose|i: int| 0 <= i < s.len() && s[i] == x;
        assert(longer[i] == x);
    }
    if x == last {
        assert(longer[s.len() as int] == x);
    }
    if longer.contains(x) && x != last {
        let i = choose|i: int| 0 <= i < longer.len() && longer[i] == x;
        assert(s[i] == x);
    }
}

/// An expired address is no longer known of its peer, and every other address
/// stays known. No peer is forgotten altogether.
pub proof fn law_expired_addresses_are_gone(
    book: KnownAddresses,
    list: Seq<(Seq<char>, Seq<u8>)>,
    id: Seq<char>,
    address: Seq<u8>,
)
    ensures
        known(after_expiry(book, list), id).contains(address) <==> (known(book, id).contains(
            address,
        ) && !list.contains((id, address))),
        after_expiry(book, list).dom() == book.dom(),
    decreases list.len(),
{
    if list.len() > 0 {
        let rest = list.drop_last();
        law_expired_addresses_are_gone(book, rest, id, address);
        assert(list =~= rest.push(list.last()));
        lemma_push_contains(rest, list.last(), (id, address));
        let before = after_expiry(book, rest);
        if list.last().0 == id && before.contains_key(id) {
            let keep = other_than(list.last().1);
            lemma_filter_contains(before[id], keep, address);
        }
        assert(after_expiry(book, list).dom() =~= book.dom());
    }
}

proof fn lemma_filter_contains<A>(s: Seq<A>, keep: spec_fn(A) -> bool, x: A)
    ensures
        s.filter(keep).contains(x) <==> s.contains(x) && keep(x),
    decreases s.len(),
{
    reveal(Seq::filter);
    if s.len() > 0 {
        lemma_filter_contains(s.drop_last(), keep, x);
        assert(s =~= s.drop_last().push(s.last()));
        lemma_push_contains(s.drop_last(), s.last(), x);
        lemma_push_contains(s.drop_last().filter(keep), s.last(), x);
    }
}

/// The addresses at which a list has a peer, in the order of the list.
pub open spec fn found(list: Seq<(Seq<char>, Seq<u8>)>, id: Seq<char>) -> Seq<Seq<u8>>
    decreases list.len(),
{
    if list.len() == 0 {
        Seq::empty()
    } else if list.last().0 == id {
        found(list.drop_last(), id).push(list.last().1)
    } else {
        found(list.drop_last(), id)
    }
}

/// What the addresses are at which a list does not have a peer.
pub open spec fn not_found(list: Seq<(Seq<char>, Seq<u8>)>, id: Seq<char>) -> spec_fn(
    Seq<u8>,
) -> bool {
    |address: Seq<u8>| !list.contains((id, address))
}

/// What is known after discovery is what was known, and then what was found.
proof fn lemma_known_after_discovery(
    book: KnownAddresses,
    list: Seq<(Seq<char>, Seq<u8>)>,
    id: Seq<char>,
)
    ensures
        known(after_discovery(book, list), id) == known(book, id) + found(list, id),
        after_discovery(book, list).contains_key(id) <==> book.contains_key(id) || found(
            list,
            id,
        ).len() > 0,
    decreases list.len(),
{
    if list.len() > 0 {
        lemma_known_after_discovery(book, list.drop_last(), id);
    }
    assert(known(after_discovery(book, list), id) =~= known(book, id) + found(list, id));
}

/// What was found is on the list.
proof fn lemma_found_is_on_list(
    list: Seq<(Seq<char>, Seq<u8>)>,
    id: Seq<char>,
    address: Seq<u8>,
)
    ensures
        found(list, id).contains(address) <==> list.contains((id, address)),
    decreases list.len(),
{
    if list.len() > 0 {
        let rest = list.drop_last();
        lemma_found_is_on_list(rest, id, address);
        assert(list =~= rest.push(list.last()));
        lemma_push_contains(rest, list.last(), (id, address));
        lemma_push_contains(found(rest, id), list.last().1, address);
    }
}

/// What is known after expiry is what was known and is not on the list.
proof fn lemma_known_after_expiry(
    book: KnownAddresses,
    list: Seq<(Seq<char>, Seq<u8>)>,
    id: Seq<char>,
)
    ensures
        known(after_expiry(book, list), id) == known(book, id).filter(not_found(list, id)),
        after_expiry(book, list).contains_key(id) <==> book.contains_key(id),
    decreases list.len(),
{
    let addresses = known(book, id);
    let keep = not_found(list, id);
    if list.len() == 0 {
        lemma_filter_keeps_all(addresses, keep);
    } else {
        let rest = list.drop_last();
        let last = list.last();
        lemma_known_after_expiry(book, rest, id);
        assert forall|address: Seq<u8>| #[trigger] keep(address) <==> not_found(rest, id)(address)
            && (last.0 == id ==> other_than(last.1)(address)) by {
            assert(list =~= rest.push(last));
            lemma_push_contains(rest, last, (id, address));
        }
        if last.0 == id {
            lemma_filter_twice(addresses, not_found(rest, id), other_than(last.1), keep);
            reveal(Seq::filter);
        } else {
            lemma_filter_same(addresses, not_found(rest, id), keep);
        }
    }
}

/// Expiry undoes discovery: when all the addresses of a list were discovered anew and
/// then expire, the addresses of every peer are those from before. A peer that was not
/// known before stays known, with no address.
pub proof fn law_expiry_undoes_discovery(
    book: KnownAddresses,
    list: Seq<(Seq<char>, Seq<u8>)>,
    id: Seq<char>,
)
    requires
        forall|i: int|
            #![trigger list[i]]
            0 <= i < list.len() ==> !known(book, list[i].0).contains(list[i].1),
    ensures
        known(after_expiry(after_discovery(book, list), list), id) == known(book, id),
        after_expiry(after_discovery(book, list), list).contains_key(id) <==> book.contains_key(id)
            || found(list, id).len() > 0,
{
    let before = known(book, id);
    let new = found(list, id);
    let keep = not_found(list, id);
    lemma_known_after_discovery(book, list, id);
    lemma_known_after_expiry(after_discovery(book, list), list, id);
    assert forall|address: Seq<u8>| #[trigger] before.contains(address) implies keep(address) by {
        if list.contains((id, address)) {
            let i = choose|i: int| 0 <= i < list.len() && list[i] == (id, address);
            assert(!known(book, list[i].0).contains(list[i].1));
        }
    }
    assert forall|address: Seq<u8>| #[trigger] new.contains(address) implies !keep(address) by {
        lemma_found_is_on_list(list, id, address);
    }
    Seq::filter_distributes_over_add(before, new, keep);
    lemma_filter_keeps_all(before, keep);
    lemma_filter_keeps_none(new, keep);
    assert(before + Seq::empty() =~= before);
}

/// Filters that keep the same leave the same.
proof fn lemma_filter_same<A>(s: Seq<A>, keep: spec_fn(A) -> bool, same: spec_fn(A) -> bool)
    requires
        forall|x: A| #[trigger] same(x) <==> keep(x),
    ensures
        s.filter(keep) == s.filter(same),
    decreases s.len(),
{
    reveal(Seq::filter);
    if s.len() > 0 {
        lemma_filter_same(s.drop_last(), keep, same);
        assert(same(s.last()) <==> keep(s.last()));
    }
}

/// Two filters, one after the other, are one that keeps what both keep.
proof fn lemma_filter_twice<A>(
    s: Seq<A>,
    first: spec_fn(A) -> bool,
    second: spec_fn(A) -> bool,
    both: spec_fn(A) -> bool,
)
    requires
        forall|x: A| #[trigger] both(x) <==> first(x) && second(x),
    ensures
        s.filter(first).filter(second) == s.filter(both),
    decreases s.len(),
{
    reveal(Seq::filter);
    if s.len() > 0 {
        let rest = s.drop_last();
        lemma_filter_twice(rest, first, second, both);
        assert(both(s.last()) <==> first(s.last()) && second(s.last()));
        if first(s.last()) {
            assert(s.filter(first).drop_last() =~= rest.filter(first));
        }
    }
}

proof fn lemma_filter_keeps_none<A>(s: Seq<A>, keep: spec_fn(A) -> bool)
    requires
        forall|x: A| #[trigger] s.contains(x) ==> !keep(x),
    ensures
        s.filter(keep) == Seq::<A>::empty(),
    decreases s.len(),
{
    reveal(Seq::filter);
    if s.len() > 0 {
        let rest = s.drop_last();
        assert(s =~= rest.push(s.last()));
        assert forall|x: A| #[trigger] rest.contains(x) implies !keep(x) by {
            lemma_push_contains(rest, s.last(), x);
        }
        lemma_filter_keeps_none(rest, keep);
        assert(s.contains(s.last())) by {
            assert(s[s.len() - 1] == s.last());
        }
    }
}

proof fn lemma_filter_keeps_all<A>(s: Seq<A>, keep: spec_fn(A) -> bool)
    requires
        forall|x: A| #[trigger] s.contains(x) ==> keep(x),
    ensures
        s.filter(keep) == s,
    decreases s.len(),
{
    reveal(Seq::filter);
    if s.len() > 0 {
        let rest = s.drop_last();
        assert(s =~= rest.push(s.last()));
        assert forall|x: A| #[trigger] rest.contains(x) implies keep(x) by {
            lemma_push_contains(rest, s.last(), x);
        }
        lemma_filter_keeps_all(rest, keep);
        assert(s.contains(s.last())) by {
            assert(s[s.len() - 1] == s.last());
        }
    } else {
        assert(s.filter(keep) =~= s);
    }
}

/// A list says of each of its peers at which address it is, in the order of the list.
pub proof fn law_sightings_keep_everything(list: Seq<(PeerId, Address)>)
    ensures
        sightings(list).len() == list.len(),
        forall|i: int|
            0 <= i < list.len() ==> #[trigger] sightings(list)[i] == (list[i].0@, list[i].1@),
{
}

/// What is known of a peer is what the book has for it.
pub proof fn law_known_is_what_the_book_has(book: KnownAddresses, id: Seq<char>)
    ensures
        book.contains_key(id) ==> known(book, id) == book[id],
        !book.contains_key(id) ==> known(book, id).len() == 0,
{
}

/// A discovery puts the address behind those that the book has for the peer, be it new
/// or not, and changes nothing else. Discoveries follow one another.
pub proof fn law_discoveries_one_by_one(
    book: KnownAddresses,
    front: Seq<(Seq<char>, Seq<u8>)>,
    back: Seq<(Seq<char>, Seq<u8>)>,
    id: Seq<char>,
    address: Seq<u8>,
)
    ensures
        after_discovery(book, Seq::empty()) == book,
        after_discovery(book, seq![(id, address)]) == book.insert(
            id,
            if book.contains_key(id) {
                book[id].push(address)
            } else {
                seq![address]
            },
        ),
        after_discovery(book, front + back) == after_discovery(after_discovery(book, front), back),
    decreases back.len(),
{
    let one = seq![(id, address)];
    assert(one.drop_last() =~= Seq::empty());
    assert(Seq::<Seq<u8>>::empty().push(address) =~= seq![address]);
    assert(after_discovery(book, one.drop_last()) == book);
    assert(after_discovery(book, one) == with_sighting(book, id, address));
    if back.len() == 0 {
        assert(front + back =~= front);
    } else {
        law_discoveries_one_by_one(book, front, back.drop_last(), id, address);
        assert((front + back).drop_last() =~= front + back.drop_last());
        assert((front + back).last() == back.last());
    }
}

/// An expiry takes the address out of what the book has for the peer, wherever it
/// stands, and changes nothing else; of a peer that is not in the book it changes
/// nothing at all. Expiries follow one another.
pub proof fn law_expiries_one_by_one(
    book: KnownAddresses,
    front: Seq<(Seq<char>, Seq<u8>)>,
    back: Seq<(Seq<char>, Seq<u8>)>,
    id: Seq<char>,
    address: Seq<u8>,
)
    ensures
        after_expiry(book, Seq::empty()) == book,
        after_expiry(book, seq![(id, address)]) == if book.contains_key(id) {
            book.insert(id, book[id].filter(|other: Seq<u8>| other != address))
        } else {
            book
        },
        after_expiry(book, front + back) == after_expiry(after_expiry(book, front), back),
    decreases back.len(),
{
    let one = seq![(id, address)];
    let keep = |other: Seq<u8>| other != address;
    assert(one.drop_last() =~= Seq::empty());
    assert(after_expiry(book, one.drop_last()) == book);
    assert(after_expiry(book, one) == without_sighting(book, id, address));
    lemma_filter_same(book[id], other_than(address), keep);
    if back.len() == 0 {
        assert(front + back =~= front);
    } else {
        law_expiries_one_by_one(book, front, back.drop_last(), id, address);
        assert((front + back).drop_last() =~= front + back.drop_last());
        assert((front + back).last() == back.last());
    }
}

/// Of a list, the sightings of peers that are in the book are all noted, in their order,
/// and no others are.
pub proof fn law_sightings_of_known_peers(
    book: KnownAddresses,
    front: Seq<(Seq<char>, Seq<u8>)>,
    back: Seq<(Seq<char>, Seq<u8>)>,
    id: Seq<char>,
    address: Seq<u8>,
)
    ensures
        of_known_peers(book, Seq::empty()).len() == 0,
        of_known_peers(book, seq![(id, address)]) == if book.contains_key(id) {
            seq![(id, address)]
        } else {
            Seq::empty()
        },
        of_known_peers(book, front + back) == of_known_peers(book, front) + of_known_peers(
            book,
            back,
        ),
{
    let keep = |sighting: (Seq<char>, Seq<u8>)| book.contains_key(sighting.0);
    let one = seq![(id, address)];
    reveal(Seq::filter);
    assert(one.drop_last() =~= Seq::empty());
    assert(one.drop_last().filter(keep) =~= Seq::empty());
    assert(of_known_peers(book, one) =~= if book.contains_key(id) {
        one
    } else {
        Seq::empty()
    });
    Seq::filter_distributes_over_add(front, back, keep);
}

} // verus!
