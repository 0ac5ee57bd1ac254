//! Route registry: the mapping from a target name to the ordered list of
//! adapter ids registered for it.
//!
//! Registration appends, never removes: the list for a target only grows,
//! in registration order, and the same adapter may appear several times
//! (an intentional hook for future weighted policies).

use vstd::prelude::*;
use crate::kv::KvStore;
pub use crate::policy::id_views;

verus! {

/// What registration does to the table: the adapter is appended to the
/// target's list, which starts empty when the target is new; no other
/// target's list moves.
pub open spec fn spec_register(
    m: Map<Seq<char>, Seq<Seq<char>>>,
    target: Seq<char>,
    adapter_id: Seq<char>,
) -> Map<Seq<char>, Seq<Seq<char>>> {
    let cur = if m.contains_key(target) {
        m[target]
    } else {
        Seq::<Seq<char>>::empty()
    };
    m.insert(target, cur.push(adapter_id))
}

pub struct RouteTable {
    store: KvStore<Vec<String>>,
}

impl RouteTable {
    /// The table as a map from target name to its adapter ids, in
    /// registration order.
    pub closed spec fn map_of(self) -> Map<Seq<char>, Seq<Seq<char>>> {
        Map::new(
            |k: Seq<char>| self.store.map_of().contains_key(k),
            |k: Seq<char>| id_views(self.store.map_of()[k]@),
        )
    }

    pub closed spec fn wf(self) -> bool {
        self.store.wf()
    }

    pub fn new() -> (r: Self)
        ensures
            r.wf(),
            r.map_of() == Map::<Seq<char>, Seq<Seq<char>>>::empty(),
    {
        let r = RouteTable { store: KvStore::empty() };
        proof {
            assert(r.map_of() =~= Map::<Seq<char>, Seq<Seq<char>>>::empty());
        }
        r
    }

    /// Appends `adapter_id` to the list for `target`, creating the list
    /// when the target was never registered. A pure append: it never
    /// fails and never removes or reorders what is already there.
    pub fn register(&mut self, target: &str, adapter_id: &str)
        requires
            old(self).wf(),
        ensures
            final(self).wf(),
            final(self).map_of() == spec_register(old(self).map_of(), target@, adapter_id@),
    {
        let t: String = target.to_owned();
        let a: String = adapter_id.to_owned();
        match self.store.find(&t) {
            Some(i) => {
                let mut list: Vec<String> = self.store.value_at(i).clone();
                proof {
                    assert(id_views(list@) =~= id_views(old(self).store.map_of()[t@]@));
                }
                list.push(a);
                let ghost new_views = id_views(list@);
                self.store.set_at(i, list);
                proof {
                    assert(new_views =~= old(self).map_of()[t@].push(adapter_id@));
                    assert(self.map_of() =~= spec_register(
                        old(self).map_of(),
                        target@,
                        adapter_id@,
                    ));
                }
            },
            None => {
                let mut list: Vec<String> = Vec::new();
                list.push(a);
                let ghost new_views = id_views(list@);
                self.store.push_new(t, list);
                proof {
                    assert(new_views =~= Seq::<Seq<char>>::empty().push(adapter_id@));
                    assert(self.map_of() =~= spec_register(
                        old(self).map_of(),
                        target@,
                        adapter_id@,
                    ));
                }
            },
        }
    }

    /// Read-only lookup: the adapter list registered for `target`, or
    /// `None` when the target was never registered.
    pub fn lookup(&self, target: &String) -> (r: Option<&Vec<String>>)
        requires
            self.wf(),
        ensures
            match r {
                Some(v) => {
                    &&& self.map_of().contains_key(target@)
                    &&& id_views(v@) == self.map_of()[target@]
                },
                None => !self.map_of().contains_key(target@),
            },
    {
        match self.store.find(target) {
            Some(i) => Some(self.store.value_at(i)),
            None => None,
        }
    }
}

} // verus!
