use vstd::prelude::*;
use vstd::rwlock::{ReadHandle, RwLock, RwLockPredicate, WriteHandle};

use crate::entity::EntityID;

verus! {

/// Lock predicate that accepts every value: the table places no invariant
/// of its own on the containers it stores.
pub struct AnyValue;

impl<C> RwLockPredicate<C> for AnyValue {
    open spec fn inv(self, v: C) -> bool {
        true
    }
}

/// Issues and recycles entity identifiers: a monotonically increasing
/// counter of fresh ids plus a free list of ids available for reuse.
pub struct EntityAllocator {
    last_id: usize,
    empties: Vec<EntityID>,
}

impl EntityAllocator {
    /// The next fresh id: every id at or above this value has never been
    /// issued.
    pub closed spec fn next_fresh(self) -> usize {
        self.last_id
    }

    /// The ids currently on the free list, oldest first.
    pub closed spec fn free_list(self) -> Seq<usize> {
        self.empties@.map_values(|e: EntityID| e.id())
    }

    /// An id is live when it has been issued and not returned to the free
    /// list. (The allocator cannot see ids a caller retired without
    /// recycling; under correct usage every issued id is live or free.)
    pub open spec fn spec_live(self, id: int) -> bool {
        0 <= id < self.next_fresh() && !self.free_list().contains(id as usize)
    }

    /// The free list holds no duplicates and only ids below the fresh
    /// counter.
    pub closed spec fn wf(self) -> bool {
        &&& forall|i: int|
            0 <= i < self.free_list().len() ==> (#[trigger] self.free_list()[i])
                < self.next_fresh()
        &&& forall|i: int, j: int|
            0 <= i < j < self.free_list().len() ==> self.free_list()[i] != self.free_list()[j]
    }

    pub fn new() -> (r: Self)
        ensures
            r.wf(),
            r.next_fresh() == 0,
            r.free_list() == Seq::<usize>::empty(),
    {
        let r = EntityAllocator { last_id: 0, empties: Vec::new() };
        proof {
            assert(r.free_list() =~= Seq::<usize>::empty());
        }
        r
    }

    /// Issues an id: the most recently freed id if any is available for
    /// reuse (last-in-first-out), otherwise the fresh counter value, which
    /// is then advanced. The id returned is never live at the moment of
    /// the call, so no two simultaneously live ids are ever equal.
    pub fn allocate(&mut self) -> (r: EntityID)
        requires
            old(self).wf(),
            old(self).free_list().len() > 0 || old(self).next_fresh() < usize::MAX,
        ensures
            final(self).wf(),
            !old(self).spec_live(r.id() as int),
            forall|id: int|
                final(self).spec_live(id) <==> (old(self).spec_live(id) || id == r.id()),
            if old(self).free_list().len() > 0 {
                r.id() == old(self).free_list().last() && final(self).free_list() == old(
                    self,
                ).free_list().drop_last() && final(self).next_fresh() == old(self).next_fresh()
            } else {
                r.id() == old(self).next_fresh() && final(self).free_list() == old(
                    self,
                ).free_list() && final(self).next_fresh() == old(self).next_fresh() + 1
            },
    {
        let empty = self.empties.pop();
        match empty {
            Some(empty) => {
                proof {
                    assert(self.free_list() =~= old(self).free_list().drop_last());
                    assert(old(self).free_list().last() == empty.id());
                    assert(!self.free_list().contains(empty.id())) by {
                        if self.free_list().contains(empty.id()) {
                            let k = choose|k: int|
                                0 <= k < self.free_list().len() && self.free_list()[k]
                                    == empty.id();
                            assert(old(self).free_list()[k] == old(self).free_list().last());
                        }
                    }
                    assert forall|id: int| final(self).spec_live(id)
                        implies (old(self).spec_live(id) || id == empty.id()) by {
                        if id != empty.id() && !old(self).spec_live(id) && 0 <= id < self.last_id {
                            let k = choose|k: int|
                                0 <= k < old(self).free_list().len() && old(self).free_list()[k]
                                    == id as usize;
                            assert(k < old(self).free_list().len() - 1);
                            assert(self.free_list()[k] == id as usize);
                        }
                    }
                }
                empty
            },
            None => {
                let id = self.last_id;
                self.last_id = self.last_id + 1;
                proof {
                    assert(old(self).free_list() =~= self.free_list());
                }
                EntityID::new(id)
            },
        }
    }

    /// Returns `entity_id` to the free list for reuse. The allocator does
    /// not validate the id at run time; the caller is responsible for
    /// returning only an id that is currently live, since a double
    /// deallocation would later let `allocate` issue the same id twice.
    pub fn dealloc(&mut self, entity_id: EntityID)
        requires
            old(self).wf(),
            old(self).spec_live(entity_id.id() as int),
        ensures
            final(self).wf(),
            final(self).next_fresh() == old(self).next_fresh(),
            final(self).free_list() == old(self).free_list().push(entity_id.id()),
            forall|id: int|
                final(self).spec_live(id) <==> (old(self).spec_live(id) && id != entity_id.id()),
    {
        self.empties.push(entity_id);
        proof {
            assert(self.free_list() =~= old(self).free_list().push(entity_id.id()));
            assert(self.free_list()[self.free_list().len() - 1] == entity_id.id());
            assert forall|id: int| final(self).spec_live(id)
                implies (old(self).spec_live(id) && id != entity_id.id()) by {
                if old(self).free_list().contains(id as usize) {
                    let k = choose|k: int|
                        0 <= k < old(self).free_list().len() && old(self).free_list()[k]
                            == id as usize;
                    assert(self.free_list()[k] == id as usize);
                }
            }
            assert forall|id: int| (old(self).spec_live(id) && id != entity_id.id())
                implies final(self).spec_live(id) by {
                if self.free_list().contains(id as usize) {
                    let k = choose|k: int|
                        0 <= k < self.free_list().len() && self.free_list()[k] == id as usize;
                    assert(k < self.free_list().len() - 1 || id == entity_id.id());
                    if k < self.free_list().len() - 1 {
                        assert(old(self).free_list()[k] == id as usize);
                    }
                }
            }
        }
    }
}

/// No two simultaneously live ids are equal: any id `allocate` returns is
/// not live at the moment of the call, so it differs from every id that is
/// still live then.
pub proof fn lemma_alloc_distinct(pre: EntityAllocator, live_id: int, fresh_id: int)
    requires
        pre.spec_live(live_id),
        !pre.spec_live(fresh_id),
    ensures
        live_id != fresh_id,
{
}

/// Owns one entity allocator and an ordered, fixed-at-construction
/// collection of component containers, each behind its own reader/writer
/// lock so that different containers can be used concurrently.
pub struct Table<C> {
    components: Vec<RwLock<C, AnyValue>>,
    entity_allocator: EntityAllocator,
}

impl<C> Table<C> {
    /// The locks, in the order the containers were handed to `new`.
    pub closed spec fn locks(self) -> Seq<RwLock<C, AnyValue>> {
        self.components@
    }

    /// How many containers the table holds.
    pub open spec fn component_count(self) -> nat {
        self.locks().len()
    }

    /// The allocator the table was constructed with.
    pub closed spec fn allocator(self) -> EntityAllocator {
        self.entity_allocator
    }

    /// Wraps each container in its own reader/writer lock and creates a
    /// fresh entity allocator.
    pub fn new(components: Vec<C>) -> (r: Self)
        ensures
            r.component_count() == components@.len(),
            r.allocator().wf(),
            r.allocator().next_fresh() == 0,
            r.allocator().free_list() == Seq::<usize>::empty(),
    {
        let mut rest = components;
        let mut locks: Vec<RwLock<C, AnyValue>> = Vec::new();
        let ghost total = rest@.len();
        while rest.len() > 0
            invariant
                locks@.len() + rest@.len() == total,
            decreases rest@.len(),
        {
            let c = rest.remove(0);
            locks.push(RwLock::new(c, Ghost(AnyValue)));
        }
        Table { components: locks, entity_allocator: EntityAllocator::new() }
    }

    /// Returns a scoped read handle to the container at `component_index`,
    /// or nothing if the index is at or beyond the container count. The
    /// handle grants shared access: concurrent read handles to the same
    /// container coexist. Release it with
    /// [`ReadHandle::release_read`].
    pub fn borrow_component(&self, component_index: usize) -> (r: Option<
        ReadHandle<'_, C, AnyValue>,
    >)
        ensures
            r is Some <==> component_index < self.component_count(),
            r matches Some(handle) ==> handle.rwlock() == self.locks()[component_index as int],
    {
        if component_index < self.components.len() {
            Some(self.components[component_index].acquire_read())
        } else {
            None
        }
    }

    /// Returns the container at `component_index` together with a write
    /// handle to its lock, or nothing if the index is at or beyond the
    /// container count. The lock stays held, excluding every other reader
    /// and writer of that container, until the value is handed back with
    /// [`WriteHandle::release_write`].
    pub fn borrow_mut_component(&self, component_index: usize) -> (r: Option<
        (C, WriteHandle<'_, C, AnyValue>),
    >)
        ensures
            r is Some <==> component_index < self.component_count(),
            r matches Some((_, handle)) ==> handle.rwlock() == self.locks()[
                component_index as int
            ],
    {
        if component_index < self.components.len() {
            Some(self.components[component_index].acquire_write())
        } else {
            None
        }
    }
}

} // verus!
