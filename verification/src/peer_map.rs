//! A map from peers to values.

use crate::peer::PeerId;
use vstd::prelude::*;

verus! {

spec fn is_entry_of<V>(entries: Seq<(PeerId, V)>, i: int, id: Seq<char>) -> bool {
    0 <= i < entries.len() && entries[i].0@ == id
}

spec fn no_peer_twice<V>(entries: Seq<(PeerId, V)>) -> bool {
    forall|i: int, j: int|
        0 <= i < j < entries.len() ==> (#[trigger] entries[i]).0@ != (#[trigger] entries[j]).0@
}

spec fn has_entry<V>(entries: Seq<(PeerId, V)>, id: Seq<char>) -> bool {
    exists|i: int| is_entry_of(entries, i, id)
}

spec fn as_map<V>(entries: Seq<(PeerId, V)>) -> Map<Seq<char>, V> {
    Map::new(
        |id: Seq<char>| has_entry(entries, id),
        |id: Seq<char>| entries[choose|i: int| is_entry_of(entries, i, id)].1,
    )
}

/// An entry gives the value for its peer.
proof fn lemma_entry<V>(entries: Seq<(PeerId, V)>, i: int)
    requires
        no_peer_twice(entries),
        0 <= i < entries.len(),
    ensures
        as_map(entries).contains_key(entries[i].0@),
        as_map(entries)[entries[i].0@] == entries[i].1,
{
    let id = entries[i].0@;
    assert(is_entry_of(entries, i, id));
    let k = choose|k: int| is_entry_of(entries, k, id);
    assert(is_entry_of(entries, k, id));
    assert(k == i);
}

/// A new entry at the end is an insertion.
proof fn lemma_push<V>(entries: Seq<(PeerId, V)>, peer: PeerId, value: V)
    requires
        no_peer_twice(entries),
        !has_entry(entries, peer@),
    ensures
        no_peer_twice(entries.push((peer, value))),
        as_map(entries.push((peer, value))) == as_map(entries).insert(peer@, value),
{
    let longer = entries.push((peer, value));
    assert(no_peer_twice(longer)) by {
        assert forall|i: int, j: int| 0 <= i < j < longer.len() implies (#[trigger] longer[i]).0@
            != (#[trigger] longer[j]).0@ by {
            if j == entries.len() {
                if longer[i].0@ == peer@ {
                    assert(is_entry_of(entries, i, peer@));
                }
            }
        }
    }
    assert forall|id: Seq<char>|
        #![trigger as_map(longer).contains_key(id)]
        as_map(longer).contains_key(id) == as_map(entries).insert(peer@, value).contains_key(id) && (
        as_map(longer).contains_key(id) ==> as_map(longer)[id] == as_map(entries).insert(
            peer@,
            value,
        )[id]) by {
        if id == peer@ {
            lemma_entry(longer, entries.len() as int);
        } else if has_entry(longer, id) {
            let i = choose|i: int| is_entry_of(longer, i, id);
            assert(i < entries.len());
            lemma_entry(longer, i);
            lemma_entry(entries, i);
        } else if has_entry(entries, id) {
            let i = choose|i: int| is_entry_of(entries, i, id);
            lemma_entry(longer, i);
        }
    }
    assert(as_map(longer) =~= as_map(entries).insert(peer@, value));
}

/// Taking an entry out is a removal.
proof fn lemma_remove<V>(entries: Seq<(PeerId, V)>, at: int)
    requires
        no_peer_twice(entries),
        0 <= at < entries.len(),
    ensures
        no_peer_twice(entries.remove(at)),
        !has_entry(entries.remove(at), entries[at].0@),
        as_map(entries.remove(at)) == as_map(entries).remove(entries[at].0@),
{
    let gone = entries[at].0@;
    let rest = entries.remove(at);
    assert(forall|i: int| 0 <= i < at ==> rest[i] == entries[i]);
    assert(forall|i: int| at <= i < rest.len() ==> rest[i] == entries[i + 1]);
    assert(!has_entry(rest, gone)) by {
        if has_entry(rest, gone) {
            let i = choose|i: int| is_entry_of(rest, i, gone);
            if i < at {
                assert(entries[i].0@ != entries[at].0@);
            } else {
                assert(entries[at].0@ != entries[i + 1].0@);
            }
        }
    }
    assert forall|id: Seq<char>|
        #![trigger as_map(rest).contains_key(id)]
        as_map(rest).contains_key(id) == as_map(entries).remove(gone).contains_key(id) && (as_map(
            rest,
        ).contains_key(id) ==> as_map(rest)[id] == as_map(entries)[id]) by {
        if has_entry(rest, id) {
            let i = choose|i: int| is_entry_of(rest, i, id);
            lemma_entry(rest, i);
            lemma_entry(
                entries,
                if i < at {
                    i
                } else {
                    i + 1
                },
            );
        } else if has_entry(entries, id) && id != gone {
            let i = choose|i: int| is_entry_of(entries, i, id);
            if i < at {
                lemma_entry(rest, i);
            } else {
                lemma_entry(rest, i - 1);
            }
        }
    }
    assert(as_map(rest) =~= as_map(entries).remove(gone));
}

/// A value for each of some peers.
#[verifier::reject_recursive_types(V)]
pub struct PeerMap<V> {
    entries: Vec<(PeerId, V)>,
}

impl<V> View for PeerMap<V> {
    type V = Map<Seq<char>, V>;

    closed spec fn view(&self) -> Map<Seq<char>, V> {
        as_map(self.entries@)
    }
}

impl<V> PeerMap<V> {
    #[verifier::type_invariant]
    spec fn holds_no_peer_twice(self) -> bool {
        no_peer_twice(self.entries@)
    }

    /// The map of no peers.
    pub fn new() -> (map: PeerMap<V>)
        ensures
            map@ == Map::<Seq<char>, V>::empty(),
    {
        let map = PeerMap { entries: Vec::new() };
        assert(map@ =~= Map::<Seq<char>, V>::empty());
        map
    }

    fn position(entries: &Vec<(PeerId, V)>, peer: &PeerId) -> (found: Option<usize>)
        ensures
            match found {
                Some(i) => is_entry_of(entries@, i as int, peer@),
                None => !has_entry(entries@, peer@),
            },
    {
        let mut i: usize = 0;
        while i < entries.len()
            invariant
                i <= entries@.len(),
                forall|k: int| 0 <= k < i ==> (#[trigger] entries@[k]).0@ != peer@,
            decreases entries@.len() - i,
        {
            if entries[i].0.same(peer) {
                return Some(i);
            }
            i = i + 1;
        }
        None
    }

    /// The value for a peer.
    pub fn get(&self, peer: &PeerId) -> (value: Option<&V>)
        ensures
            match value {
                Some(value) => self@.contains_key(peer@) && *value == self@[peer@],
                None => !self@.contains_key(peer@),
            },
    {
        proof {
            use_type_invariant(self);
        }
        match Self::position(&self.entries, peer) {
            Some(i) => {
                proof {
                    lemma_entry(self.entries@, i as int);
                }
                Some(&self.entries[i].1)
            },
            None => None,
        }
    }

    /// Sets the value for a peer, and returns the one that it had before.
    pub fn insert(&mut self, peer: PeerId, value: V) -> (before: Option<V>)
        ensures
            final(self)@ == old(self)@.insert(peer@, value),
            before == if old(self)@.contains_key(peer@) {
                Some(old(self)@[peer@])
            } else {
                None
            },
    {
        let before = self.remove(&peer);
        proof {
            use_type_invariant(&*self);
            lemma_push(self.entries@, peer, value);
        }
        let ghost rest = old(self)@.remove(peer@);
        let mut entries: Vec<(PeerId, V)> = Vec::new();
        std::mem::swap(&mut self.entries, &mut entries);
        entries.push((peer, value));
        self.entries = entries;
        assert(rest.insert(peer@, value) =~= old(self)@.insert(peer@, value));
        before
    }

    /// Takes the value for a peer out of the map.
    pub fn remove(&mut self, peer: &PeerId) -> (value: Option<V>)
        ensures
            final(self)@ == old(self)@.remove(peer@),
            !final(self)@.contains_key(peer@),
            value == if old(self)@.contains_key(peer@) {
                Some(old(self)@[peer@])
            } else {
                None
            },
    {
        proof {
            use_type_invariant(&*self);
        }
        match Self::position(&self.entries, peer) {
            Some(i) => {
                proof {
                    lemma_entry(self.entries@, i as int);
                    lemma_remove(self.entries@, i as int);
                }
                let mut entries: Vec<(PeerId, V)> = Vec::new();
                std::mem::swap(&mut self.entries, &mut entries);
                let (_, value) = entries.remove(i);
                self.entries = entries;
                Some(value)
            },
            None => {
                assert(old(self)@.remove(peer@) =~= old(self)@);
                None
            },
        }
    }
}

} // verus!
