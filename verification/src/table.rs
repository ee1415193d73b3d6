//! The table that finds a connection by its endpoints.

use std::collections::HashMap;
use std::sync::Arc;
use vstd::prelude::*;

use crate::addr::AddrTuple;

verus! {

broadcast use vstd::std_specs::hash::group_hash_axioms;

/// The connections that share a pair of ports.
struct Bucket<C> {
    entries: Vec<(AddrTuple, Arc<C>)>,
}

impl<C> Bucket<C> {
    /// No endpoints stand in the bucket twice.
    spec fn wf(&self) -> bool {
        forall|i: int, j: int|
            0 <= i < j < self.entries@.len() ==> self.entries@[i].0 != self.entries@[j].0
    }

    spec fn holds(&self, i: int, tuple: AddrTuple) -> bool {
        0 <= i < self.entries@.len() && self.entries@[i].0 == tuple
    }

    spec fn view(&self) -> Map<AddrTuple, Arc<C>> {
        Map::new(
            |tuple: AddrTuple| exists|i: int| self.holds(i, tuple),
            |tuple: AddrTuple| self.entries@[choose|i: int| self.holds(i, tuple)].1,
        )
    }

    proof fn lemma_entry(&self, i: int)
        requires
            self.wf(),
            0 <= i < self.entries@.len(),
        ensures
            self@.contains_key(self.entries@[i].0),
            self@[self.entries@[i].0] == self.entries@[i].1,
    {
        let tuple = self.entries@[i].0;
        assert(self.holds(i, tuple));
        let j = choose|j: int| self.holds(j, tuple);
        assert(self.holds(j, tuple));
        assert(i == j);
    }

    fn new() -> (bucket: Bucket<C>)
        ensures
            bucket.wf(),
            bucket@ == Map::<AddrTuple, Arc<C>>::empty(),
    {
        let bucket = Bucket { entries: Vec::new() };
        assert(bucket@ =~= Map::<AddrTuple, Arc<C>>::empty());
        bucket
    }

    fn is_empty(&self) -> (empty: bool)
        ensures
            empty == (self@ == Map::<AddrTuple, Arc<C>>::empty()),
    {
        proof {
            if self.entries@.len() == 0 {
                assert(self@ =~= Map::<AddrTuple, Arc<C>>::empty());
            } else {
                assert(self.holds(0, self.entries@[0].0));
                assert(self@.contains_key(self.entries@[0].0));
            }
        }
        self.entries.len() == 0
    }

    fn position(&self, tuple: &AddrTuple) -> (at: Option<usize>)
        ensures
            match at {
                Some(i) => self.holds(i as int, *tuple),
                None => !self@.contains_key(*tuple),
            },
    {
        let mut i: usize = 0;
        while i < self.entries.len()
            invariant
                forall|j: int| 0 <= j < i ==> self.entries@[j].0 != *tuple,
            decreases self.entries@.len() - i,
        {
            if self.entries[i].0 == *tuple {
                return Some(i);
            }
            i += 1;
        }
        None
    }

    fn get(&self, tuple: &AddrTuple) -> (conn: Option<&Arc<C>>)
        requires
            self.wf(),
        ensures
            match conn {
                Some(conn) => self@.contains_key(*tuple) && *conn == self@[*tuple],
                None => !self@.contains_key(*tuple),
            },
    {
        match self.position(tuple) {
            Some(i) => {
                proof {
                    self.lemma_entry(i as int);
                }
                Some(&self.entries[i].1)
            },
            None => None,
        }
    }

    fn remove(&mut self, tuple: &AddrTuple) -> (removed: Option<Arc<C>>)
        requires
            old(self).wf(),
        ensures
            final(self).wf(),
            final(self)@ == old(self)@.remove(*tuple),
            match removed {
                Some(conn) => old(self)@.contains_key(*tuple) && conn == old(self)@[*tuple],
                None => !old(self)@.contains_key(*tuple),
            },
    {
        match self.position(tuple) {
            Some(i) => {
                proof {
                    self.lemma_entry(i as int);
                }
                let (_, conn) = self.entries.remove(i);
                proof {
                    let before = old(self).entries@;
                    let after = self.entries@;
                    assert(after =~= before.remove(i as int));
                    assert forall|t: AddrTuple|
                        #![auto]
                        self@.contains_key(t) == old(self)@.remove(*tuple).contains_key(t) by {
                        if self@.contains_key(t) {
                            let j = choose|j: int| self.holds(j, t);
                            old(self).lemma_entry(if j < i { j } else { j + 1 });
                        }
                        if old(self)@.remove(*tuple).contains_key(t) {
                            let j = choose|j: int| old(self).holds(j, t);
                            assert(j != i);
                            assert(self.holds(if j < i { j } else { j - 1 }, t));
                        }
                    }
                    assert forall|t: AddrTuple| self@.contains_key(t) implies #[trigger] self@[t]
                        == old(self)@[t] by {
                        let j = choose|j: int| self.holds(j, t);
                        self.lemma_entry(j);
                        old(self).lemma_entry(if j < i { j } else { j + 1 });
                    }
                    assert(self@ =~= old(self)@.remove(*tuple));
                }
                Some(conn)
            },
            None => {
                assert(self@ =~= old(self)@.remove(*tuple));
                None
            },
        }
    }

    fn insert(&mut self, tuple: AddrTuple, conn: Arc<C>) -> (previous: Option<Arc<C>>)
        requires
            old(self).wf(),
        ensures
            final(self).wf(),
            final(self)@ == old(self)@.insert(tuple, conn),
            match previous {
                Some(conn) => old(self)@.contains_key(tuple) && conn == old(self)@[tuple],
                None => !old(self)@.contains_key(tuple),
            },
    {
        let previous = self.remove(&tuple);
        let ghost before = *self;
        self.entries.push((tuple, conn));
        proof {
            let n = before.entries@.len();
            assert forall|i: int, j: int| 0 <= i < j < self.entries@.len() implies self.entries@[i].0
                != self.entries@[j].0 by {
                if j == n {
                    before.lemma_entry(i);
                }
            }
            self.lemma_entry(n as int);
            assert forall|t: AddrTuple|
                #![auto]
                self@.contains_key(t) == before@.insert(tuple, conn).contains_key(t) by {
                if self@.contains_key(t) {
                    let j = choose|j: int| self.holds(j, t);
                    if j < n {
                        before.lemma_entry(j);
                    }
                }
                if before@.contains_key(t) {
                    let j = choose|j: int| before.holds(j, t);
                    assert(self.holds(j, t));
                }
            }
            assert forall|t: AddrTuple| before@.contains_key(t) implies #[trigger] self@[t]
                == before@[t] by {
                let j = choose|j: int| before.holds(j, t);
                before.lemma_entry(j);
                self.lemma_entry(j);
            }
            assert(self@ =~= old(self)@.insert(tuple, conn));
        }
        previous
    }
}

/// The pair of ports of a connection as one integer.
pub open spec fn port_pair(tuple: AddrTuple) -> u32 {
    (tuple.local_addr.port * 0x1_0000 + tuple.remote_addr.port) as u32
}

/// Connections by their endpoints. Each connection is a handle of type `C`, shared by everyone
/// who looks it up.
pub struct ConnTable<C> {
    buckets: HashMap<u32, Bucket<C>>,
}

impl<C> ConnTable<C> {
    /// Every bucket is well-formed.
    pub closed spec fn wf(&self) -> bool {
        forall|pair: u32| #[trigger]
            self.buckets@.contains_key(pair) ==> self.buckets@[pair].wf()
    }

    spec fn registered(&self, tuple: AddrTuple) -> bool {
        self.buckets@.contains_key(port_pair(tuple)) && self.buckets@[port_pair(
            tuple,
        )]@.contains_key(tuple)
    }

    pub closed spec fn view(&self) -> Map<AddrTuple, Arc<C>> {
        Map::new(
            |tuple: AddrTuple| self.registered(tuple),
            |tuple: AddrTuple| self.buckets@[port_pair(tuple)]@[tuple],
        )
    }

    /// An empty table.
    pub fn new() -> (table: ConnTable<C>)
        ensures
            table.wf(),
            table@ == Map::<AddrTuple, Arc<C>>::empty(),
    {
        let table = ConnTable { buckets: HashMap::new() };
        assert(table@ =~= Map::<AddrTuple, Arc<C>>::empty());
        table
    }

    fn pair(tuple: &AddrTuple) -> (pair: u32)
        ensures
            pair == port_pair(*tuple),
    {
        tuple.local_addr.port as u32 * 0x1_0000 + tuple.remote_addr.port as u32
    }

    /// The connection between these endpoints.
    pub fn get(&self, tuple: &AddrTuple) -> (conn: Option<&Arc<C>>)
        requires
            self.wf(),
        ensures
            match conn {
                Some(conn) => self@.contains_key(*tuple) && *conn == self@[*tuple],
                None => !self@.contains_key(*tuple),
            },
    {
        match self.buckets.get(&Self::pair(tuple)) {
            Some(bucket) => bucket.get(tuple),
            None => None,
        }
    }

    /// Whether there is a connection between these endpoints.
    pub fn contains_key(&self, tuple: &AddrTuple) -> (yes: bool)
        requires
            self.wf(),
        ensures
            yes == self@.contains_key(*tuple),
    {
        self.get(tuple).is_some()
    }

    /// Enters a connection and hands back the one that it displaced.
    pub fn insert(&mut self, tuple: AddrTuple, conn: Arc<C>) -> (previous: Option<Arc<C>>)
        requires
            old(self).wf(),
        ensures
            final(self).wf(),
            final(self)@ == old(self)@.insert(tuple, conn),
            match previous {
                Some(conn) => old(self)@.contains_key(tuple) && conn == old(self)@[tuple],
                None => !old(self)@.contains_key(tuple),
            },
    {
        let pair: u32 = Self::pair(&tuple);
        let mut bucket = match self.buckets.remove(&pair) {
            Some(bucket) => bucket,
            None => Bucket::new(),
        };
        let previous = bucket.insert(tuple, conn);
        self.buckets.insert(pair, bucket);
        assert(self@ =~= old(self)@.insert(tuple, conn));
        previous
    }

    /// Takes a connection out of the table.
    pub fn remove(&mut self, tuple: &AddrTuple) -> (removed: Option<Arc<C>>)
        requires
            old(self).wf(),
        ensures
            final(self).wf(),
            final(self)@ == old(self)@.remove(*tuple),
            match removed {
                Some(conn) => old(self)@.contains_key(*tuple) && conn == old(self)@[*tuple],
                None => !old(self)@.contains_key(*tuple),
            },
    {
        let pair: u32 = Self::pair(tuple);
        match self.buckets.remove(&pair) {
            Some(bucket) => {
                let ghost before = bucket@;
                let mut bucket = bucket;
                let removed = bucket.remove(tuple);
                let ghost after = bucket@;
                if !bucket.is_empty() {
                    self.buckets.insert(pair, bucket);
                }
                assert forall|t: AddrTuple| #[trigger]
                    self.registered(t) == (t != *tuple && old(self).registered(t)) by {
                    assert(after.contains_key(t) == (t != *tuple && before.contains_key(t)));
                }
                assert(self@ =~= old(self)@.remove(*tuple));
                removed
            },
            None => {
                assert(self@ =~= old(self)@.remove(*tuple));
                None
            },
        }
    }
}

} // verus!
