use std::collections::HashMap;

use vstd::prelude::*;
use vstd::std_specs::iter::IteratorSpec;

use crate::domain::node_id::NodeId;
use crate::timeout::random_in_inclusive_range;

verus! {

broadcast use vstd::std_specs::hash::group_hash_axioms;

/// The servers of a cluster, each with the handle through which it is reached,
/// keyed by identifier.
#[derive(Debug)]
pub struct ServerPeerList<H> {
    peer_list: HashMap<u128, H>,
}

impl<H> View for ServerPeerList<H> {
    type V = Map<u128, H>;

    closed spec fn view(&self) -> Map<u128, H> {
        self.peer_list@
    }
}

impl<H: Clone> ServerPeerList<H> {
    /// An empty list.
    pub fn new() -> (l: Self)
        ensures
            l@ == Map::<u128, H>::empty(),
    {
        Self { peer_list: HashMap::new() }
    }

    /// The handles of the given servers; for an identifier given more than
    /// once, the last pair holding it counts.
    pub fn from_pairs(pairs: Vec<(NodeId, H)>) -> (l: Self)
        ensures
            forall|k: u128| #[trigger] l@.contains_key(k) <==> exists|i: int|
                0 <= i < pairs@.len() && pairs@[i].0.bits() == k,
            forall|k: u128| #[trigger] l@.contains_key(k) ==> exists|i: int|
                0 <= i < pairs@.len() && pairs@[i].0.bits() == k && l@[k] == pairs@[i].1 && forall|j: int|
                    i < j < pairs@.len() ==> #[trigger] pairs@[j].0.bits() != k,
    {
        let mut l = Self::new();
        let mut pairs = pairs;
        let ghost all = pairs@;
        while pairs.len() > 0
            invariant
                all.len() >= pairs@.len(),
                pairs@ == all.subrange(0, pairs@.len() as int),
                forall|k: u128| #[trigger] l@.contains_key(k) <==> exists|i: int|
                    pairs@.len() <= i < all.len() && all[i].0.bits() == k,
                forall|k: u128| #[trigger] l@.contains_key(k) ==> exists|i: int|
                    pairs@.len() <= i < all.len() && all[i].0.bits() == k && l@[k] == all[i].1 && forall|
                        j: int,
                    | i < j < all.len() ==> #[trigger] all[j].0.bits() != k,
            decreases pairs@.len(),
        {
            let ghost n = pairs@.len();
            let ghost old_map = l@;
            let (id, handle) = pairs.pop().unwrap();
            assert(all[n - 1].0 == id);
            if !l.peer_list.contains_key(&id.as_u128()) {
                l.peer_list.insert(id.as_u128(), handle);
                assert(l@ == old_map.insert(id.bits(), handle));
                assert(forall|j: int| n - 1 < j < all.len() ==> #[trigger] all[j].0.bits() != id.bits());
            } else {
                assert(l@ == old_map);
            }
            assert forall|k: u128| #[trigger] l@.contains_key(k) <==> exists|i: int|
                pairs@.len() <= i < all.len() && all[i].0.bits() == k by {
                if k == id.bits() {
                    assert(all[n - 1].0.bits() == k);
                } else {
                    assert(l@.contains_key(k) <==> old_map.contains_key(k));
                    if old_map.contains_key(k) {
                        let i = choose|i: int| n <= i < all.len() && all[i].0.bits() == k;
                        assert(all[i].0.bits() == k);
                    }
                    if exists|i: int| pairs@.len() <= i < all.len() && all[i].0.bits() == k {
                        let i = choose|i: int| pairs@.len() <= i < all.len() && all[i].0.bits() == k;
                        assert(i != n - 1);
                        assert(n <= i);
                    }
                }
            }
            assert forall|k: u128| #[trigger] l@.contains_key(k) implies exists|i: int|
                pairs@.len() <= i < all.len() && all[i].0.bits() == k && l@[k] == all[i].1 && forall|
                    j: int,
                | i < j < all.len() ==> #[trigger] all[j].0.bits() != k by {
                if old_map.contains_key(k) {
                    let i = choose|i: int|
                        n <= i < all.len() && all[i].0.bits() == k && old_map[k] == all[i].1 && forall|
                            j: int,
                        | i < j < all.len() ==> #[trigger] all[j].0.bits() != k;
                    assert(l@[k] == old_map[k]);
                } else {
                    assert(k == id.bits());
                    assert(all[n - 1].0.bits() == k);
                }
            }
        }
        l
    }

    pub fn len(&self) -> (n: usize)
        ensures
            n == self@.len(),
    {
        self.peer_list.len()
    }

    pub fn get(&self, id: &NodeId) -> (r: Option<&H>)
        ensures
            match r {
                Some(h) => self@.contains_key(id.bits()) && *h == self@[id.bits()],
                None => !self@.contains_key(id.bits()),
            },
    {
        self.peer_list.get(&id.as_u128())
    }

    pub fn insert(&mut self, id: NodeId, handle: H) -> (r: Option<H>)
        ensures
            final(self)@ == old(self)@.insert(id.bits(), handle),
            match r {
                Some(h) => old(self)@.contains_key(id.bits()) && h == old(self)@[id.bits()],
                None => !old(self)@.contains_key(id.bits()),
            },
    {
        self.peer_list.insert(id.as_u128(), handle)
    }

    pub fn remove(&mut self, id: &NodeId) -> (r: Option<H>)
        ensures
            final(self)@ == old(self)@.remove(id.bits()),
            match r {
                Some(h) => old(self)@.contains_key(id.bits()) && h == old(self)@[id.bits()],
                None => !old(self)@.contains_key(id.bits()),
            },
    {
        self.peer_list.remove(&id.as_u128())
    }

    /// The identifiers of the servers in the list, each once.
    pub fn ids(&self) -> (ids: Vec<NodeId>)
        ensures
            ids@.len() == self@.len(),
            forall|i: int| 0 <= i < ids@.len() ==> #[trigger] self@.contains_key(ids@[i].bits()),
            forall|k: u128| #[trigger] self@.contains_key(k) ==> exists|i: int|
                0 <= i < ids@.len() && ids@[i].bits() == k,
            forall|i: int, j: int|
                0 <= i < ids@.len() && 0 <= j < ids@.len() && i != j ==> ids@[i] != ids@[j],
    {
        let mut ids: Vec<NodeId> = Vec::new();
        let ghost ks: Seq<u128> = vstd::std_specs::hash::spec_keys_iter(&self.peer_list).remaining().unref();
        for k in it: self.peer_list.keys()
            invariant
                it.seq().unref() == ks,
                ids@.len() == it.index(),
                forall|i: int| 0 <= i < it.index() ==> ids@[i].bits() == ks[i],
        {
            ids.push(NodeId::from_u128(*k));
        }
        assert(ks.to_set() == self@.dom());
        assert(ks.no_duplicates());
        proof {
            ks.unique_seq_to_set();
        }
        assert forall|i: int| 0 <= i < ids@.len() implies #[trigger] self@.contains_key(ids@[i].bits()) by {
            assert(ks.to_set().contains(ks[i]));
        }
        assert forall|k: u128| #[trigger] self@.contains_key(k) implies exists|i: int|
            0 <= i < ids@.len() && ids@[i].bits() == k by {
            assert(ks.to_set().contains(k));
            let i = choose|i: int| 0 <= i < ks.len() && ks[i] == k;
            assert(ids@[i].bits() == k);
        }
        assert forall|i: int, j: int|
            0 <= i < ids@.len() && 0 <= j < ids@.len() && i != j implies ids@[i] != ids@[j] by {
            if ids@[i] == ids@[j] {
                assert(ks[i] == ks[j]);
            }
        }
        ids
    }

    /// A server of the list, picked at random, with a clone of its handle.
    pub fn random_peer(&self) -> (r: (NodeId, H))
        requires
            self@.len() > 0,
            self@.len() <= u64::MAX,
        ensures
            self@.contains_key(r.0.bits()),
            vstd::pervasive::cloned(self@[r.0.bits()], r.1),
    {
        let ids = self.ids();
        let random_index = random_in_inclusive_range(0, (ids.len() - 1) as u64) as usize;
        let id = ids[random_index];
        let handle = self.peer_list.get(&id.as_u128()).unwrap().clone();
        (id, handle)
    }
}

impl<H: Clone> Clone for ServerPeerList<H> {
    fn clone(&self) -> (c: Self)
        ensures
            c@ == self@,
    {
        Self { peer_list: self.peer_list.clone() }
    }
}

} // verus!
