use vstd::prelude::*;

verus! {

/// A lightweight, copyable handle naming one entity: an index into a dense
/// id space that starts at zero. Ids are issued by the entity allocator and
/// never mutated after issue; there is no generation tag, so a handle kept
/// across a dealloc/alloc cycle can alias a newly issued entity.
#[derive(Debug, Clone, Copy, PartialEq, Eq, Structural)]
pub struct EntityID(usize);

impl EntityID {
    /// The id as a mathematical value, for use in contracts.
    pub closed spec fn id(self) -> usize {
        self.0
    }

    pub fn new(id: usize) -> (r: Self)
        ensures
            r.id() == id,
    {
        EntityID(id)
    }

    pub fn as_usize(self) -> (r: usize)
        ensures
            r == self.id(),
    {
        self.0
    }
}

} // verus!
