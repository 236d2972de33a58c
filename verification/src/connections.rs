//! Open connections, keyed by the identity of their device: at most one for
//! each identity.

use crate::device::{DeviceId, DeviceKey};
use vstd::prelude::*;

verus! {

/// The map that pairs each of `ids` with the handle at the same position.
spec fn paired<C>(ids: Seq<DeviceId>, conns: Seq<C>) -> Map<DeviceId, C> {
    Map::new(|id: DeviceId| ids.contains(id), |id: DeviceId| conns[ids.index_of(id)])
}

proof fn lemma_paired<C>(ids: Seq<DeviceId>, conns: Seq<C>)
    requires
        ids.len() == conns.len(),
        ids.no_duplicates(),
    ensures
        forall|id: DeviceId| #[trigger] paired(ids, conns).dom().contains(id) <==> ids.contains(id),
        forall|i: int|
            0 <= i < ids.len() ==> paired(ids, conns).dom().contains(#[trigger] ids[i]) && paired(
                ids,
                conns,
            )[ids[i]] == conns[i],
        paired(ids, conns).dom().finite(),
        paired(ids, conns).dom().len() == ids.len(),
{
    assert forall|i: int| 0 <= i < ids.len() implies paired(ids, conns).dom().contains(
        #[trigger] ids[i],
    ) && paired(ids, conns)[ids[i]] == conns[i] by {
        let j = ids.index_of(ids[i]);
        assert(ids[j] == ids[i]);
    }
    assert(paired(ids, conns).dom() =~= ids.to_set());
    ids.unique_seq_to_set();
}

/// The open connections of one kind. Its view is the map from the identity
/// of a device to the handle of its connection. A handle lives as long as
/// its entry: taking the entry out hands the handle back, and dropping it
/// releases the port.
pub struct ConnectionMap<C> {
    keys: Vec<DeviceKey>,
    conns: Vec<C>,
}

impl<C> View for ConnectionMap<C> {
    type V = Map<DeviceId, C>;

    closed spec fn view(&self) -> Map<DeviceId, C> {
        paired(self.keys.deep_view(), self.conns@)
    }
}

impl<C> ConnectionMap<C> {
    /// Every identity has one entry at most.
    pub closed spec fn wf(&self) -> bool {
        &&& self.keys.len() == self.conns.len()
        &&& self.keys.deep_view().no_duplicates()
    }

    /// The connections are finitely many.
    pub proof fn lemma_finite(&self)
        requires
            self.wf(),
        ensures
            self@.dom().finite(),
    {
        lemma_paired(self.keys.deep_view(), self.conns@);
    }

    /// A map without connections.
    pub fn new() -> (m: Self)
        ensures
            m.wf(),
            m@ == Map::<DeviceId, C>::empty(),
    {
        let m = ConnectionMap { keys: Vec::new(), conns: Vec::new() };
        assert(m@ =~= Map::<DeviceId, C>::empty());
        m
    }

    /// The number of open connections, which is the number of identities
    /// that have one.
    pub fn len(&self) -> (n: usize)
        requires
            self.wf(),
        ensures
            self@.dom().finite(),
            n == self@.dom().len(),
    {
        proof {
            lemma_paired(self.keys.deep_view(), self.conns@);
        }
        self.keys.len()
    }

    /// Whether no connection is open.
    pub fn is_empty(&self) -> (b: bool)
        requires
            self.wf(),
        ensures
            b == (self@ == Map::<DeviceId, C>::empty()),
    {
        proof {
            lemma_paired(self.keys.deep_view(), self.conns@);
            if self.keys.len() == 0 {
                assert(self@ =~= Map::<DeviceId, C>::empty());
            } else {
                assert(self@.dom().contains(self.keys.deep_view()[0]));
            }
        }
        self.keys.len() == 0
    }

    fn position(&self, key: &DeviceKey) -> (at: Option<usize>)
        requires
            self.wf(),
        ensures
            match at {
                Some(i) => i < self.keys.len() && self.keys.deep_view()[i as int] == key@,
                None => !self.keys.deep_view().contains(key@),
            },
    {
        let mut i: usize = 0;
        while i < self.keys.len()
            invariant
                i <= self.keys.len(),
                forall|j: int| 0 <= j < i ==> self.keys.deep_view()[j] != key@,
            decreases self.keys.len() - i,
        {
            if self.keys[i] == *key {
                return Some(i);
            }
            i += 1;
        }
        None
    }

    /// Whether the device `key` has an open connection.
    pub fn contains_key(&self, key: &DeviceKey) -> (b: bool)
        requires
            self.wf(),
        ensures
            b == self@.dom().contains(key@),
    {
        proof {
            lemma_paired(self.keys.deep_view(), self.conns@);
        }
        self.position(key).is_some()
    }

    /// The handle of the connection of the device `key`, if it has one.
    pub fn get(&self, key: &DeviceKey) -> (conn: Option<&C>)
        requires
            self.wf(),
        ensures
            match conn {
                Some(c) => self@.dom().contains(key@) && *c == self@[key@],
                None => !self@.dom().contains(key@),
            },
    {
        proof {
            lemma_paired(self.keys.deep_view(), self.conns@);
        }
        match self.position(key) {
            Some(i) => Some(&self.conns[i]),
            None => None,
        }
    }

    /// Takes out the connection of the device `key` and hands its handle
    /// back, if there is one. Other connections are not touched.
    pub fn remove(&mut self, key: &DeviceKey) -> (conn: Option<C>)
        requires
            old(self).wf(),
        ensures
            final(self).wf(),
            final(self)@ == old(self)@.remove(key@),
            match conn {
                Some(c) => old(self)@.dom().contains(key@) && c == old(self)@[key@],
                None => !old(self)@.dom().contains(key@),
            },
    {
        proof {
            lemma_paired(self.keys.deep_view(), self.conns@);
        }
        match self.position(key) {
            Some(i) => {
                let ghost ids = self.keys.deep_view();
                let ghost conns = self.conns@;
                self.keys.remove(i);
                let c = self.conns.remove(i);
                proof {
                    let ids_new = self.keys.deep_view();
                    assert(ids_new =~= ids.remove(i as int));
                    assert(self.conns@ == conns.remove(i as int));
                    assert(ids_new.no_duplicates()) by {
                        assert forall|a: int, b: int|
                            0 <= a < ids_new.len() && 0 <= b < ids_new.len() && a
                                != b implies ids_new[a] != ids_new[b] by {
                            let a_old = if a < i { a } else { a + 1 };
                            let b_old = if b < i { b } else { b + 1 };
                            assert(ids_new[a] == ids[a_old] && ids_new[b] == ids[b_old]);
                        }
                    }
                    lemma_paired(ids_new, self.conns@);
                    assert forall|id: DeviceId| ids_new.contains(id) <==> (ids.contains(id) && id
                        != key@) by {
                        if ids_new.contains(id) {
                            let a = ids_new.index_of(id);
                            let a_old = if a < i { a } else { a + 1 };
                            assert(ids[a_old] == id);
                        }
                        if ids.contains(id) && id != key@ {
                            let a_old = ids.index_of(id);
                            let a = if a_old < i { a_old } else { a_old - 1 };
                            assert(ids_new[a] == id);
                        }
                    }
                    assert forall|id: DeviceId| ids_new.contains(id) implies #[trigger] self@[id]
                        == old(self)@[id] by {
                        let a = ids_new.index_of(id);
                        let a_old = if a < i { a } else { a + 1 };
                        assert(ids_new[a] == id && ids[a_old] == id);
                        assert(self@[ids_new[a]] == self.conns@[a]);
                        assert(old(self)@[ids[a_old]] == conns[a_old]);
                    }
                    assert(self@ =~= old(self)@.remove(key@));
                    assert(old(self)@[ids[i as int]] == conns[i as int]);
                }
                Some(c)
            },
            None => {
                assert(self@ =~= old(self)@.remove(key@));
                None
            },
        }
    }

    /// Stores `conn` as the connection of the device `key`. A connection
    /// that the device already had is taken out and handed back, so the
    /// device never has two.
    pub fn insert(&mut self, key: DeviceKey, conn: C) -> (previous: Option<C>)
        requires
            old(self).wf(),
        ensures
            final(self).wf(),
            final(self)@ == old(self)@.insert(key@, conn),
            match previous {
                Some(c) => old(self)@.dom().contains(key@) && c == old(self)@[key@],
                None => !old(self)@.dom().contains(key@),
            },
    {
        let previous = self.remove(&key);
        proof {
            lemma_paired(self.keys.deep_view(), self.conns@);
        }
        let ghost ids = self.keys.deep_view();
        let ghost conns = self.conns@;
        let ghost mid = self@;
        self.keys.push(key);
        self.conns.push(conn);
        proof {
            let ids_new = self.keys.deep_view();
            assert(ids_new =~= ids.push(key@));
            assert(!ids.contains(key@));
            assert(ids_new.no_duplicates());
            lemma_paired(ids_new, self.conns@);
            assert forall|id: DeviceId| ids_new.contains(id) <==> (ids.contains(id) || id
                == key@) by {
                if ids_new.contains(id) {
                    let a = ids_new.index_of(id);
                    if a < ids.len() {
                        assert(ids[a] == id);
                    }
                }
                if ids.contains(id) {
                    let a = ids.index_of(id);
                    assert(ids_new[a] == id);
                }
                if id == key@ {
                    assert(ids_new[ids.len() as int] == id);
                }
            }
            assert forall|id: DeviceId| ids.contains(id) implies #[trigger] self@[id]
                == mid[id] by {
                let a = ids.index_of(id);
                assert(ids_new[a] == id && ids[a] == id);
                assert(self@[ids_new[a]] == self.conns@[a]);
                assert(mid[ids[a]] == conns[a]);
            }
            assert(self@[ids_new[ids.len() as int]] == conn);
            assert(self@ =~= mid.insert(key@, conn));
            assert(mid.insert(key@, conn) =~= old(self)@.insert(key@, conn));
        }
        previous
    }

    /// Takes out every connection; dropping the handles releases the ports.
    pub fn clear(&mut self)
        ensures
            final(self).wf(),
            final(self)@ == Map::<DeviceId, C>::empty(),
    {
        self.keys.clear();
        self.conns.clear();
        assert(self@ =~= Map::<DeviceId, C>::empty());
    }
}

/// Opening a connection for a device that had none and closing it again
/// leaves the connections as they were.
pub proof fn lemma_open_then_close<C>(m: Map<DeviceId, C>, id: DeviceId, conn: C)
    requires
        !m.dom().contains(id),
    ensures
        m.insert(id, conn).remove(id) == m,
        m.insert(id, conn).dom() == m.dom().insert(id),
{
    assert(m.insert(id, conn).remove(id) =~= m);
    assert(m.insert(id, conn).dom() =~= m.dom().insert(id));
}

} // verus!
