use vstd::prelude::*;
use std::collections::HashMap;
use vstd::std_specs::iter::IteratorSpec;

verus! {

broadcast use vstd::std_specs::hash::group_hash_axioms;

/// All painters that are connected right now: each id maps to the handle
/// through which messages reach that painter.
pub struct UserRegistry<S> {
    users: HashMap<u128, S>,
}

impl<S> View for UserRegistry<S> {
    type V = Map<u128, S>;

    closed spec fn view(&self) -> Map<u128, S> {
        self.users@
    }
}

impl<S> UserRegistry<S> {
    /// A registry with nobody in it.
    pub fn new() -> (reg: Self)
        ensures
            reg@ == Map::<u128, S>::empty(),
    {
        UserRegistry { users: HashMap::new() }
    }

    /// Registers `tx` under `id`; a painter already known under `id` is replaced.
    pub fn insert(&mut self, id: u128, tx: S)
        ensures
            final(self)@ == old(self)@.insert(id, tx),
    {
        self.users.insert(id, tx);
    }

    /// Forgets the painter `id`, if there is one.
    pub fn remove(&mut self, id: u128)
        ensures
            final(self)@ == old(self)@.remove(id),
    {
        self.users.remove(&id);
    }

    /// Whether a painter is registered under `id`.
    pub fn contains(&self, id: u128) -> (res: bool)
        ensures
            res == self@.contains_key(id),
    {
        self.users.contains_key(&id)
    }

    /// The handle of the painter `id`.
    pub fn get(&self, id: u128) -> (res: Option<&S>)
        ensures
            match res {
                Some(tx) => self@.contains_key(id) && *tx == self@[id],
                None => !self@.contains_key(id),
            },
    {
        self.users.get(&id)
    }

    /// How many painters are registered.
    pub fn len(&self) -> (n: usize)
        ensures
            n == self@.len(),
    {
        self.users.len()
    }

    /// Every registered id except `except`, each exactly once, in no particular order.
    pub fn others(&self, except: u128) -> (ids: Vec<u128>)
        ensures
            ids@.no_duplicates(),
            forall|k: u128| ids@.contains(k) <==> (self@.contains_key(k) && k != except),
    {
        let mut ids: Vec<u128> = Vec::new();
        let ghost keys = vstd::std_specs::hash::spec_keys_iter(&self.users).remaining();
        let ghost mut seen: int = 0;
        for k in it: self.users.keys()
            invariant
                it.seq() == keys,
                seen == it.index(),
                keys.unref().to_set() == self@.dom(),
                keys.no_duplicates(),
                ids@.no_duplicates(),
                forall|j: u128|
                    ids@.contains(j) <==> (exists|i: int|
                        0 <= i < seen && *keys[i] == j && j != except),
        {
            let ghost before = ids@;
            assert(*keys[seen] == *k);
            if *k != except {
                assert(!before.contains(*k)) by {
                    if before.contains(*k) {
                        let i = choose|i: int| 0 <= i < seen && *keys[i] == *k;
                        assert(keys[i] == keys[seen]);
                    }
                }
                ids.push(*k);
                assert(ids@ == before.push(*k));
            } else {
                assert(ids@ == before);
            }
            assert forall|j: u128|
                ids@.contains(j) <==> (exists|i: int|
                    0 <= i < seen + 1 && *keys[i] == j && j != except) by {
                if ids@.contains(j) && !before.contains(j) {
                    let x = choose|x: int| 0 <= x < ids@.len() && ids@[x] == j;
                    if x < before.len() {
                        assert(before[x] == j);
                    }
                    assert(*keys[seen] == j);
                }
                if exists|i: int| 0 <= i < seen + 1 && *keys[i] == j && j != except {
                    let i = choose|i: int| 0 <= i < seen + 1 && *keys[i] == j && j != except;
                    if i < seen {
                        assert(before.contains(j));
                        let x = choose|x: int| 0 <= x < before.len() && before[x] == j;
                        assert(ids@[x] == j);
                    } else {
                        assert(ids@[ids@.len() - 1] == j);
                    }
                }
            }
            proof {
                seen = seen + 1;
            }
        }
        assert(seen == keys.len());
        assert forall|j: u128| ids@.contains(j) <==> (self@.contains_key(j) && j != except) by {
            let flat = keys.unref();
            if self@.contains_key(j) && j != except {
                assert(flat.to_set().contains(j));
                let i = choose|i: int| 0 <= i < flat.len() && flat[i] == j;
                assert(*keys[i] == j);
            }
            if ids@.contains(j) {
                let i = choose|i: int| 0 <= i < seen && *keys[i] == j && j != except;
                assert(flat[i] == j);
                assert(flat.to_set().contains(j));
            }
        }
        ids
    }
}

} // verus!
