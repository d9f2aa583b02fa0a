use vstd::pervasive::VecAdditionalExecFns;
use vstd::prelude::*;

use crate::entity::EntityID;

verus! {

/// Reported when a registration arrives out of order: the id of a new
/// registration must equal the number of ids already registered in the
/// container, so that ids arrive gap-free in the order the allocator
/// issues them.
#[derive(Debug, Clone, Copy, PartialEq, Eq, Structural)]
pub struct InvalidRegistrationOrder;

/// Index of a slot in the dense value array of a [`Component`].
#[derive(Debug, Clone, Copy)]
struct DenseIndex(usize);

impl DenseIndex {
    spec fn idx(self) -> usize {
        self.0
    }

    fn new(index: usize) -> (r: Self)
        ensures
            r.idx() == index,
    {
        DenseIndex(index)
    }

    fn as_index(self) -> (r: usize)
        ensures
            r == self.idx(),
    {
        self.0
    }
}

/// Sparse-set container for one component type.
///
/// `to_dense` has one entry per registered entity id and maps the id to an
/// optional slot in the packed `dense_elements` array; `dense_to_entity`
/// records, for each dense slot, the entity id that owns it, so that a
/// swap-removal can repair the mapping of the entity whose value was moved.
///
///```text
/// EntityID       :  0   1   2   3
/// to_dense       : [0,  1,  x,  2]
///                   |   |       |
///                   |   |   +---+
///                   |   |   |
/// dense_elements : [0] [1] [2]
///```
#[derive(Debug)]
pub struct Component<T> {
    to_dense: Vec<Option<DenseIndex>>,
    dense_elements: Vec<T>,
    dense_to_entity: Vec<usize>,
}

impl<T> View for Component<T> {
    type V = Seq<Option<T>>;

    /// A container is viewed as the sequence that maps each registered
    /// entity id to its value, if it has one.
    closed spec fn view(&self) -> Seq<Option<T>> {
        Seq::new(
            self.to_dense@.len(),
            |e: int|
                match self.to_dense@[e] {
                    Some(d) => Some(self.dense_elements@[d.idx() as int]),
                    None => None,
                },
        )
    }
}

/// The value `get(id)` must return on a container whose view is `s`.
pub open spec fn spec_get<T>(s: Seq<Option<T>>, id: int) -> Option<T> {
    if 0 <= id && id < s.len() {
        s[id]
    } else {
        None
    }
}

/// The view of a container after `remove(id)`: the mapping of `id` is
/// cleared; every other entity keeps its value.
pub open spec fn remove_view<T>(s: Seq<Option<T>>, id: int) -> Seq<Option<T>> {
    if 0 <= id && id < s.len() {
        s.update(id, None)
    } else {
        s
    }
}

impl<T> Component<T> {
    /// Internal consistency of the two-array sparse set: the arrays are
    /// parallel, every mapped slot is in bounds, and the slot-to-entity
    /// back-pointers invert the entity-to-slot mapping (so the mapping is
    /// injective and every dense slot is owned by exactly one entity).
    pub closed spec fn wf(self) -> bool {
        &&& self.dense_to_entity@.len() == self.dense_elements@.len()
        &&& forall|e: int|
            0 <= e < self.to_dense@.len() && self.to_dense@[e] is Some ==> {
                let d = (#[trigger] self.to_dense@[e])->Some_0.idx();
                &&& d < self.dense_elements@.len()
                &&& self.dense_to_entity@[d as int] == e
            }
        &&& forall|j: int|
            0 <= j < self.dense_to_entity@.len() ==> {
                let e = #[trigger] self.dense_to_entity@[j];
                &&& e < self.to_dense@.len()
                &&& self.to_dense@[e as int] is Some
                &&& self.to_dense@[e as int]->Some_0.idx() == j
            }
    }

    pub fn new() -> (r: Self)
        ensures
            r.wf(),
            r@ == Seq::<Option<T>>::empty(),
    {
        let r = Component { to_dense: Vec::new(), dense_elements: Vec::new(), dense_to_entity: Vec::new() };
        proof {
            assert(r@ =~= Seq::<Option<T>>::empty());
        }
        r
    }

    /// Marks `entity_id` as known to this container with no value.
    ///
    /// Registrations must arrive in the order the allocator issues fresh
    /// ids: the id must equal the number of ids already registered here.
    /// Anything else is reported as [`InvalidRegistrationOrder`] and
    /// leaves the container unchanged.
    pub fn register_entity_without_value(&mut self, entity_id: EntityID) -> (r: Result<
        (),
        InvalidRegistrationOrder,
    >)
        requires
            old(self).wf(),
        ensures
            final(self).wf(),
            match r {
                Ok(()) => entity_id.id() == old(self)@.len() && final(self)@ == old(self)@.push(
                    None::<T>,
                ),
                Err(_) => entity_id.id() != old(self)@.len() && final(self)@ == old(self)@,
            },
            final(self)@ == apply_op(old(self)@, ComponentOp::RegisterWithoutValue(entity_id)),
    {
        if entity_id.as_usize() == self.to_dense.len() {
            self.to_dense.push(None);
            proof {
                assert(self@ =~= old(self)@.push(None::<T>));
            }
            Ok(())
        } else {
            Err(InvalidRegistrationOrder)
        }
    }

    /// Registers `entity_id` with an initial value, appending the value to
    /// the dense array and recording its slot.
    ///
    /// The same ordering requirement as
    /// [`Self::register_entity_without_value`] applies.
    pub fn register_entity_with_value(&mut self, entity_id: EntityID, value: T) -> (r: Result<
        (),
        InvalidRegistrationOrder,
    >)
        requires
            old(self).wf(),
        ensures
            final(self).wf(),
            match r {
                Ok(()) => entity_id.id() == old(self)@.len() && final(self)@ == old(self)@.push(
                    Some(value),
                ),
                Err(_) => entity_id.id() != old(self)@.len() && final(self)@ == old(self)@,
            },
            final(self)@ == apply_op(old(self)@, ComponentOp::RegisterWithValue(entity_id, value)),
    {
        if entity_id.as_usize() == self.to_dense.len() {
            let d = DenseIndex::new(self.dense_elements.len());
            self.dense_elements.push(value);
            self.dense_to_entity.push(entity_id.as_usize());
            self.to_dense.push(Some(d));
            proof {
                assert(self@ =~= old(self)@.push(Some(value)));
            }
            Ok(())
        } else {
            Err(InvalidRegistrationOrder)
        }
    }

    /// Clears the mapping of `entity_id`, removing its value (if any) from
    /// the dense array by swapping the last dense element into the freed
    /// slot; the entity that owned that last element has its mapping
    /// rewritten to point at the freed slot. Removing an id that is absent
    /// (unregistered, already removed, or out of range) is a no-op.
    pub fn remove(&mut self, entity_id: EntityID)
        requires
            old(self).wf(),
        ensures
            final(self).wf(),
            final(self)@ == remove_view(old(self)@, entity_id.id() as int),
            final(self)@ == apply_op(old(self)@, ComponentOp::Remove(entity_id)),
    {
        let id = entity_id.as_usize();
        if id >= self.to_dense.len() {
            proof {
                assert(self@ =~= remove_view(old(self)@, entity_id.id() as int));
            }
            return ;
        }
        let dense_index = self.to_dense[id];
        if let Some(d) = dense_index {
            let di = d.as_index();
            let last = self.dense_elements.len() - 1;
            let moved_entity = self.dense_to_entity[last];
            self.dense_elements.swap_remove(di);
            self.dense_to_entity.swap_remove(di);
            self.to_dense.set(id, None);
            if di < last {
                proof {
                    // Only `id` maps to slot `di`, so the owner of the last
                    // slot is a different entity and its mapping survives
                    // the clearing of `id`.
                    assert(old(self).dense_to_entity@[di as int] == id);
                    assert(moved_entity != id);
                }
                self.to_dense.set(moved_entity, Some(DenseIndex::new(di)));
            }
            proof {
                assert(self@ =~= remove_view(old(self)@, entity_id.id() as int));
            }
        } else {
            self.to_dense.set(id, None);
            proof {
                assert(self@ =~= remove_view(old(self)@, entity_id.id() as int));
            }
        }
    }

    /// Returns the value mapped to `entity_id`, or nothing if the id is
    /// unregistered, has no value, or is out of range.
    pub fn get(&self, entity_id: EntityID) -> (r: Option<&T>)
        requires
            self.wf(),
        ensures
            match r {
                Some(v) => spec_get(self@, entity_id.id() as int) == Some(*v),
                None => spec_get(self@, entity_id.id() as int) is None,
            },
    {
        let id = entity_id.as_usize();
        if id >= self.to_dense.len() {
            return None;
        }
        match self.to_dense[id] {
            Some(d) => Some(&self.dense_elements[d.as_index()]),
            None => None,
        }
    }
}

/// One operation on a component container, as the contracts of
/// [`Component::register_entity_without_value`],
/// [`Component::register_entity_with_value`] and [`Component::remove`]
/// describe them.
pub enum ComponentOp<T> {
    RegisterWithoutValue(EntityID),
    RegisterWithValue(EntityID, T),
    Remove(EntityID),
}

/// The entity id an operation names.
pub open spec fn op_entity<T>(op: ComponentOp<T>) -> int {
    match op {
        ComponentOp::RegisterWithoutValue(e) => e.id() as int,
        ComponentOp::RegisterWithValue(e, _) => e.id() as int,
        ComponentOp::Remove(e) => e.id() as int,
    }
}

/// What an operation leaves mapped to the entity it names: the registered
/// value, or nothing for a registration without value or a removal.
pub open spec fn op_outcome<T>(op: ComponentOp<T>) -> Option<T> {
    match op {
        ComponentOp::RegisterWithValue(_, v) => Some(v),
        _ => None,
    }
}

/// The view after one operation, as the operations' contracts state it: an
/// in-order registration appends, an out-of-order one is rejected and
/// changes nothing, and a removal clears the named id's mapping.
pub open spec fn apply_op<T>(s: Seq<Option<T>>, op: ComponentOp<T>) -> Seq<Option<T>> {
    match op {
        ComponentOp::RegisterWithoutValue(e) => if e.id() as int == s.len() {
            s.push(None)
        } else {
            s
        },
        ComponentOp::RegisterWithValue(e, v) => if e.id() as int == s.len() {
            s.push(Some(v))
        } else {
            s
        },
        ComponentOp::Remove(e) => remove_view(s, e.id() as int),
    }
}

/// The view after a whole sequence of operations, applied first to last.
pub open spec fn apply_ops<T>(s: Seq<Option<T>>, ops: Seq<ComponentOp<T>>) -> Seq<Option<T>>
    decreases ops.len(),
{
    if ops.len() == 0 {
        s
    } else {
        apply_ops(apply_op(s, ops[0]), ops.drop_first())
    }
}

/// All registrations arrive in order: each one's id equals `base` plus the
/// number of registrations before it.
pub open spec fn ops_in_order<T>(base: int, ops: Seq<ComponentOp<T>>) -> bool
    decreases ops.len(),
{
    ops.len() == 0 || match ops[0] {
        ComponentOp::RegisterWithoutValue(e) => e.id() as int == base && ops_in_order(
            base + 1,
            ops.drop_first(),
        ),
        ComponentOp::RegisterWithValue(e, _) => e.id() as int == base && ops_in_order(
            base + 1,
            ops.drop_first(),
        ),
        ComponentOp::Remove(_) => ops_in_order(base, ops.drop_first()),
    }
}

/// Whether some operation in `ops` names the id.
pub open spec fn touches<T>(ops: Seq<ComponentOp<T>>, id: int) -> bool
    decreases ops.len(),
{
    ops.len() > 0 && (op_entity(ops[0]) == id || touches(ops.drop_first(), id))
}

/// The outcome of the most recent operation in `ops` that names `id`: the
/// most recently registered value, or nothing if the id was registered
/// without a value, was removed afterwards, or was never named at all.
pub open spec fn last_outcome<T>(ops: Seq<ComponentOp<T>>, id: int) -> Option<T>
    decreases ops.len(),
{
    if ops.len() == 0 {
        None
    } else if touches(ops.drop_first(), id) {
        last_outcome(ops.drop_first(), id)
    } else if op_entity(ops[0]) == id {
        op_outcome(ops[0])
    } else {
        None
    }
}

/// After any in-order sequence of registrations and removals applied to a
/// container with view `s`, `get(id)` returns the outcome of the most
/// recent operation naming `id`; an id no operation names keeps whatever
/// `s` mapped it to.
pub proof fn lemma_get_matches_history<T>(s: Seq<Option<T>>, ops: Seq<ComponentOp<T>>, id: int)
    requires
        ops_in_order(s.len() as int, ops),
    ensures
        spec_get(apply_ops(s, ops), id) == if touches(ops, id) {
            last_outcome(ops, id)
        } else {
            spec_get(s, id)
        },
    decreases ops.len(),
{
    if ops.len() > 0 {
        lemma_get_matches_history(apply_op(s, ops[0]), ops.drop_first(), id);
    }
}

/// The headline form, starting from a freshly constructed container: for
/// any in-order sequence of registrations and removals, `get(id)` returns
/// exactly the most recently registered value for `id`, or nothing if `id`
/// was removed, was registered without a value, or was never registered.
pub proof fn lemma_get_matches_history_from_new<T>(ops: Seq<ComponentOp<T>>, id: int)
    requires
        ops_in_order(0, ops),
    ensures
        spec_get(apply_ops(Seq::<Option<T>>::empty(), ops), id) == last_outcome(ops, id),
{
    lemma_get_matches_history(Seq::<Option<T>>::empty(), ops, id);
}

/// Round trip: registering a value for the next fresh id and then reading
/// that id back yields exactly the value just registered.
pub proof fn lemma_register_get_round_trip<T>(s: Seq<Option<T>>, v: T)
    ensures
        spec_get(s.push(Some(v)), s.len() as int) == Some(v),
{
}

/// Removal is idempotent: removing an id that is already absent changes
/// nothing, the removed id reads as empty, and every other entity keeps
/// its value.
pub proof fn lemma_remove_idempotent<T>(s: Seq<Option<T>>, id: int)
    ensures
        remove_view(remove_view(s, id), id) == remove_view(s, id),
        spec_get(remove_view(s, id), id) is None,
        forall|j: int| j != id ==> spec_get(remove_view(s, id), j) == spec_get(s, j),
{
    assert(remove_view(remove_view(s, id), id) =~= remove_view(s, id));
}

} // verus!
