use vstd::prelude::*;

verus! {

/// A handle to an entity of an [`Arena`]: a slot index and the generation of the
/// slot when the entity was inserted. Once the entity is removed the handle
/// never finds anything again.
#[derive(Clone, Copy, Debug, PartialEq, Eq, Hash, Structural)]
pub struct Id {
    pub index: usize,
    pub generation: u64,
}

/// Each id of `s` has a lower slot index than the ones after it.
pub open spec fn sorted_by_index(s: Seq<Id>) -> bool {
    forall|a: int, b: int| 0 <= a < b < s.len() ==> s[a].index < s[b].index
}

struct Slot<T> {
    generation: u64,
    value: Option<T>,
}

/// Storage for the entities of one kind, keyed by generation-checked ids.
pub struct Arena<T> {
    slots: Vec<Slot<T>>,
}

impl<T> View for Arena<T> {
    type V = Map<Id, T>;

    /// The live entities by id.
    closed spec fn view(&self) -> Map<Id, T> {
        Map::new(
            |id: Id| self.live(id),
            |id: Id| self.slots@[id.index as int].value->Some_0,
        )
    }
}

impl<T> Arena<T> {
    spec fn live(&self, id: Id) -> bool {
        &&& id.index < self.slots@.len()
        &&& self.slots@[id.index as int].generation == id.generation
        &&& self.slots@[id.index as int].value is Some
    }

    /// `id` was handed out by this arena at some time, live or not.
    pub closed spec fn issued(&self, id: Id) -> bool {
        id.index < self.slots@.len() && id.generation <= self.slots@[id.index as int].generation
    }

    /// Two live ids with the same slot index are the same id.
    pub proof fn lemma_index_unique(&self, a: Id, b: Id)
        requires
            self@.contains_key(a),
            self@.contains_key(b),
            a.index == b.index,
        ensures
            a == b,
    {
    }

    pub fn new() -> (r: Arena<T>)
        ensures
            r@ == Map::<Id, T>::empty(),
            forall|id: Id| !r.issued(id),
    {
        let r = Arena { slots: Vec::new() };
        assert(r@ =~= Map::<Id, T>::empty());
        r
    }

    /// Stores `value` under an id that this arena has never handed out.
    pub fn insert(&mut self, value: T) -> (r: Id)
        ensures
            final(self)@ == old(self)@.insert(r, value),
            !old(self)@.contains_key(r),
            !old(self).issued(r),
            final(self).issued(r),
            forall|id: Id| old(self).issued(id) ==> final(self).issued(id),
    {
        let mut i: usize = 0;
        while i < self.slots.len()
            invariant
                i <= self.slots@.len(),
                self.slots@ == old(self).slots@,
            decreases self.slots@.len() - i,
        {
            if self.slots[i].value.is_none() && self.slots[i].generation < u64::MAX {
                let generation = self.slots[i].generation + 1;
                let ghost pre = *self;
                self.slots.set(i, Slot { generation, value: Some(value) });
                let r = Id { index: i, generation };
                assert(self@ =~= pre@.insert(r, value));
                return r;
            }
            i += 1;
        }
        let r = Id { index: self.slots.len(), generation: 0 };
        let ghost pre = *self;
        self.slots.push(Slot { generation: 0, value: Some(value) });
        assert(self@ =~= pre@.insert(r, value));
        r
    }

    /// Takes the entity out; its id goes stale for good.
    pub fn remove(&mut self, id: Id) -> (r: Option<T>)
        ensures
            final(self)@ == old(self)@.remove(id),
            r == old(self)@.get(id),
            forall|i: Id| old(self).issued(i) <==> final(self).issued(i),
    {
        if id.index < self.slots.len() && self.slots[id.index].generation == id.generation
            && self.slots[id.index].value.is_some() {
            let ghost pre = *self;
            let mut old_slot = Slot { generation: id.generation, value: None };
            self.slots.set_and_swap(id.index, &mut old_slot);
            assert(self@ =~= pre@.remove(id));
            old_slot.value
        } else {
            assert(self@ =~= old(self)@.remove(id));
            None
        }
    }

    /// The ids of the live entities, each once, in slot order.
    pub fn ids(&self) -> (r: Vec<Id>)
        ensures
            r@.no_duplicates(),
            forall|id: Id| r@.contains(id) <==> self@.contains_key(id),
            sorted_by_index(r@),
    {
        let mut r: Vec<Id> = Vec::new();
        let mut i: usize = 0;
        while i < self.slots.len()
            invariant
                i <= self.slots@.len(),
                r@.no_duplicates(),
                forall|id: Id| r@.contains(id) <==> (self.live(id) && id.index < i),
                forall|k: int| 0 <= k < r@.len() ==> r@[k].index < i,
                sorted_by_index(r@),
            decreases self.slots@.len() - i,
        {
            if self.slots[i].value.is_some() {
                let id = Id { index: i, generation: self.slots[i].generation };
                let ghost prev = r@;
                r.push(id);
                assert(r@ == prev.push(id));
                assert forall|x: Id| r@.contains(x) <==> (self.live(x) && x.index < i + 1) by {
                    if r@.contains(x) {
                        let k = choose|k: int| 0 <= k < r@.len() && r@[k] == x;
                        if k < prev.len() {
                            assert(prev[k] == x);
                            assert(prev.contains(x));
                        }
                    }
                    if self.live(x) && x.index < i {
                        assert(prev.contains(x));
                        let k = choose|k: int| 0 <= k < prev.len() && prev[k] == x;
                        assert(r@[k] == x);
                    }
                    if self.live(x) && x.index == i {
                        assert(r@[r@.len() - 1] == x);
                    }
                }
            }
            i += 1;
        }
        r
    }

    /// Replaces every live entity by what `f` makes of it, and removes those
    /// for which `f` gives `None`. The ids of the kept entities stay valid.
    pub fn update_retain<F: Fn(&T) -> Option<T>>(&mut self, f: F)
        requires
            forall|id: Id| old(self)@.contains_key(id) ==> f.requires((&old(self)@[id],)),
        ensures
            forall|id: Id| final(self)@.contains_key(id) ==> old(self)@.contains_key(id),
            forall|id: Id|
                old(self)@.contains_key(id) ==> {
                    &&& final(self)@.contains_key(id) ==> f.ensures(
                        (&old(self)@[id],),
                        Some(final(self)@[id]),
                    )
                    &&& !final(self)@.contains_key(id) ==> f.ensures((&old(self)@[id],), None)
                },
            forall|i: Id| old(self).issued(i) <==> final(self).issued(i),
    {
        let mut i: usize = 0;
        while i < self.slots.len()
            invariant
                i <= self.slots@.len(),
                self.slots@.len() == old(self).slots@.len(),
                forall|k: int|
                    0 <= k < self.slots@.len() ==> self.slots@[k].generation == old(
                        self,
                    ).slots@[k].generation,
                forall|k: int|
                    i <= k < self.slots@.len() ==> self.slots@[k] == old(self).slots@[k],
                forall|k: int|
                    0 <= k < i ==> (self.slots@[k].value is Some ==> old(self).slots@[k].value is Some),
                forall|id: Id|
                    old(self)@.contains_key(id) ==> f.requires((&old(self)@[id],)),
                forall|id: Id|
                    #![trigger old(self)@[id]]
                    old(self)@.contains_key(id) && id.index < i ==> {
                        &&& self.live(id) ==> f.ensures(
                            (&old(self)@[id],),
                            Some(self.slots@[id.index as int].value->Some_0),
                        )
                        &&& !self.live(id) ==> f.ensures((&old(self)@[id],), None)
                    },
            decreases self.slots@.len() - i,
        {
            let generation = self.slots[i].generation;
            let next = match &self.slots[i].value {
                Some(v) => {
                    let ghost id = Id { index: i, generation };
                    assert(old(self)@.contains_key(id));
                    Some(f(v))
                },
                None => None,
            };
            if let Some(value) = next {
                self.slots.set(i, Slot { generation, value });
            }
            i += 1;
        }
        assert forall|id: Id| final(self)@.contains_key(id) implies old(self)@.contains_key(id) by {
            assert(self.live(id));
        }
    }

    pub fn contains(&self, id: Id) -> (r: bool)
        ensures
            r == self@.contains_key(id),
    {
        id.index < self.slots.len() && self.slots[id.index].generation == id.generation
            && self.slots[id.index].value.is_some()
    }

    pub fn get(&self, id: Id) -> (r: Option<&T>)
        ensures
            r is Some <==> self@.contains_key(id),
            r matches Some(v) ==> *v == self@[id],
    {
        if id.index < self.slots.len() && self.slots[id.index].generation == id.generation {
            match &self.slots[id.index].value {
                Some(v) => Some(v),
                None => None,
            }
        } else {
            None
        }
    }

    pub fn get_mut(&mut self, id: Id) -> (r: Option<&mut T>)
        ensures
            r is Some <==> old(self)@.contains_key(id),
            r is Some ==> *r->Some_0 == old(self)@[id] && final(self)@ == old(self)@.insert(
                id,
                *final(r->Some_0),
            ),
            r is None ==> final(self)@ == old(self)@,
    {
        if id.index < self.slots.len() && self.slots[id.index].generation == id.generation {
            match &mut self.slots[id.index].value {
                Some(v) => Some(v),
                None => None,
            }
        } else {
            None
        }
    }
}

} // verus!
