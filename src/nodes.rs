use crate::lookup::LoadHandle;
use vstd::prelude::*;

verus! {

/// One renderable mesh instance.
#[derive(Clone, Copy, PartialEq, Eq, Structural, Debug)]
pub struct MeshRenderNode {
    pub mesh: LoadHandle,
}

/// A slot index together with the generation it was handed out in; a handle
/// of a freed node never resolves again, even once its slot is reused.
#[derive(Clone, Copy, PartialEq, Eq, Structural, Debug)]
pub struct RenderNodeHandle {
    pub index: usize,
    pub generation: u64,
}

#[derive(Clone, Copy)]
struct Slot {
    generation: u64,
    node: Option<MeshRenderNode>,
}

/// Arena of mesh render nodes. Slots freed during a frame are held back
/// until `update`, so no handle used by the current frame is reused.
pub struct MeshRenderNodeSet {
    slots: Vec<Slot>,
    free_slots: Vec<usize>,
    pending_free: Vec<usize>,
}

impl MeshRenderNodeSet {
    /// The node that `h` resolves to.
    pub closed spec fn node_at(&self, h: RenderNodeHandle) -> Option<MeshRenderNode> {
        if h.index < self.slots@.len() && self.slots@[h.index as int].generation == h.generation {
            self.slots@[h.index as int].node
        } else {
            None
        }
    }

    /// Slots freed since the last `update`.
    pub closed spec fn pending_free_view(&self) -> Seq<usize> {
        self.pending_free@
    }

    /// Number of slots ever created.
    pub closed spec fn slot_count(&self) -> int {
        self.slots@.len() as int
    }

    /// Slots free for reuse, the next one to be reused last.
    pub closed spec fn free_view(&self) -> Seq<usize> {
        self.free_slots@
    }

    /// The generation slot `i` hands out; it grows each time the slot is
    /// freed, so handles of freed nodes never match it again.
    pub closed spec fn generation_of(&self, i: int) -> u64 {
        self.slots@[i].generation
    }

    /// A handle whose generation is not its slot's current one resolves to
    /// nothing.
    pub proof fn lemma_stale_handle(&self, h: RenderNodeHandle)
        requires
            h.index < self.slot_count(),
            self.generation_of(h.index as int) != h.generation,
        ensures
            self.node_at(h) is None,
    {
    }

    closed spec fn released(&self) -> Seq<usize> {
        self.free_slots@ + self.pending_free@
    }

    /// Every released slot is empty and released once.
    pub closed spec fn wf(&self) -> bool {
        &&& forall|i: int|
            0 <= i < self.released().len() ==> {
                &&& #[trigger] self.released()[i] < self.slots@.len()
                &&& self.slots@[self.released()[i] as int].node.is_none()
            }
        &&& forall|i: int, j: int|
            0 <= i < j < self.released().len() ==> #[trigger] self.released()[i]
                != #[trigger] self.released()[j]
    }

    pub fn new() -> (r: Self)
        ensures
            r.wf(),
            forall|h: RenderNodeHandle| r.node_at(h).is_none(),
            r.pending_free_view().len() == 0,
            r.free_view().len() == 0,
            r.slot_count() == 0,
    {
        let r = MeshRenderNodeSet { slots: Vec::new(), free_slots: Vec::new(), pending_free: Vec::new() };
        assert(r.released() =~= Seq::<usize>::empty());
        r
    }

    /// Stores `node` and returns a fresh handle to it. A slot freed since the
    /// last `update` is not reused. Fails only when the slot count would
    /// overflow.
    pub fn allocate(&mut self, node: MeshRenderNode) -> (r: Option<RenderNodeHandle>)
        requires
            old(self).wf(),
        ensures
            final(self).wf(),
            final(self).pending_free_view() == old(self).pending_free_view(),
            final(self).slot_count() >= old(self).slot_count(),
            forall|i: int|
                0 <= i < old(self).slot_count() ==> final(self).generation_of(i) == old(
                    self,
                ).generation_of(i),
            match r {
                Some(h) => {
                    &&& if old(self).free_view().len() > 0 {
                        &&& h.index == old(self).free_view().last()
                        &&& h.generation == old(self).generation_of(h.index as int)
                        &&& final(self).free_view() == old(self).free_view().drop_last()
                        &&& final(self).slot_count() == old(self).slot_count()
                    } else {
                        &&& h.index == old(self).slot_count()
                        &&& h.generation == 0
                        &&& final(self).free_view() == old(self).free_view()
                        &&& final(self).slot_count() == old(self).slot_count() + 1
                        &&& final(self).generation_of(h.index as int) == 0
                    }
                    &&& old(self).node_at(h).is_none()
                    &&& final(self).node_at(h) == Some(node)
                    &&& !old(self).pending_free_view().contains(h.index)
                    &&& forall|h2: RenderNodeHandle|
                        h2 != h ==> final(self).node_at(h2) == old(self).node_at(h2)
                },
                None => {
                    &&& old(self).free_view().len() == 0
                    &&& old(self).slot_count() == usize::MAX
                    &&& *final(self) == *old(self)
                },
            },
    {
        let ghost rel = self.released();
        if self.free_slots.len() > 0 {
            let index = self.free_slots.pop().unwrap();
            let ghost last = rel.len() - self.pending_free@.len() - 1;
            assert(rel[last] == index);
            let generation = self.slots[index].generation;
            self.slots.set(index, Slot { generation, node: Some(node) });
            assert forall|i: int| 0 <= i < self.released().len() implies #[trigger] self.released()[i]
                != index by {
                if i < last {
                    assert(self.released()[i] == rel[i]);
                } else {
                    assert(self.released()[i] == rel[i + 1]);
                }
            }
            assert forall|i: int, j: int| 0 <= i < j < self.released().len() implies #[trigger] self.released()[i]
                != #[trigger] self.released()[j] by {
                let ii = if i < last { i } else { i + 1 };
                let jj = if j < last { j } else { j + 1 };
                assert(self.released()[i] == rel[ii]);
                assert(self.released()[j] == rel[jj]);
            }
            assert forall|i: int| 0 <= i < self.released().len() implies {
                &&& #[trigger] self.released()[i] < self.slots@.len()
                &&& self.slots@[self.released()[i] as int].node.is_none()
            } by {
                if i < last {
                    assert(self.released()[i] == rel[i]);
                } else {
                    assert(self.released()[i] == rel[i + 1]);
                }
            }
            assert(!old(self).pending_free_view().contains(index)) by {
                if old(self).pending_free_view().contains(index) {
                    let k = choose|k: int|
                        0 <= k < old(self).pending_free_view().len()
                            && old(self).pending_free_view()[k] == index;
                    assert(rel[old(self).free_slots@.len() + k] == index);
                }
            }
            Some(RenderNodeHandle { index, generation })
        } else if self.slots.len() < usize::MAX {
            let index = self.slots.len();
            self.slots.push(Slot { generation: 0, node: Some(node) });
            assert(self.released() == rel);
            assert(!old(self).pending_free_view().contains(index)) by {
                if old(self).pending_free_view().contains(index) {
                    let k = choose|k: int|
                        0 <= k < old(self).pending_free_view().len()
                            && old(self).pending_free_view()[k] == index;
                    assert(rel[old(self).free_slots@.len() + k] == index);
                }
            }
            Some(RenderNodeHandle { index, generation: 0 })
        } else {
            None
        }
    }

    /// Removes the node `h` resolves to. Returns whether there was one; a
    /// stale or unknown handle changes nothing.
    pub fn free(&mut self, h: RenderNodeHandle) -> (r: bool)
        requires
            old(self).wf(),
        ensures
            final(self).wf(),
            r == old(self).node_at(h).is_some(),
            final(self).node_at(h).is_none(),
            final(self).free_view() == old(self).free_view(),
            final(self).slot_count() == old(self).slot_count(),
            forall|i: int|
                0 <= i < old(self).slot_count() && i != h.index ==> final(self).generation_of(i)
                    == old(self).generation_of(i),
            !r ==> *final(self) == *old(self),
            r && h.generation < u64::MAX ==> {
                &&& final(self).generation_of(h.index as int) == h.generation + 1
                &&& final(self).pending_free_view() == old(self).pending_free_view().push(h.index)
            },
            r && h.generation == u64::MAX ==> {
                &&& final(self).generation_of(h.index as int) == h.generation
                &&& final(self).pending_free_view() == old(self).pending_free_view()
            },
            forall|h2: RenderNodeHandle|
                h2 != h ==> final(self).node_at(h2) == old(self).node_at(h2),
    {
        if h.index < self.slots.len() && self.slots[h.index].generation == h.generation
            && self.slots[h.index].node.is_some() {
            let ghost rel = self.released();
            let index = h.index;
            assert forall|i: int| 0 <= i < rel.len() implies #[trigger] rel[i] != index by {}
            if h.generation < u64::MAX {
                self.slots.set(index, Slot { generation: h.generation + 1, node: None });
                self.pending_free.push(index);
                assert(self.released() =~= rel.push(index));
            } else {
                // The generation is exhausted: the slot is retired for good.
                self.slots.set(index, Slot { generation: h.generation, node: None });
                assert(self.released() == rel);
            }
            true
        } else {
            false
        }
    }

    /// The node `h` resolves to.
    pub fn get(&self, h: RenderNodeHandle) -> (r: Option<MeshRenderNode>)
        ensures
            r == self.node_at(h),
    {
        if h.index < self.slots.len() && self.slots[h.index].generation == h.generation {
            self.slots[h.index].node
        } else {
            None
        }
    }

    /// Makes the slots freed since the last call available again. No handle
    /// changes what it resolves to.
    pub fn update(&mut self)
        requires
            old(self).wf(),
        ensures
            final(self).wf(),
            final(self).pending_free_view().len() == 0,
            final(self).free_view() == old(self).free_view() + old(self).pending_free_view(),
            final(self).slot_count() == old(self).slot_count(),
            forall|i: int|
                0 <= i < old(self).slot_count() ==> final(self).generation_of(i) == old(
                    self,
                ).generation_of(i),
            forall|h: RenderNodeHandle| final(self).node_at(h) == old(self).node_at(h),
    {
        let ghost rel = self.released();
        let mut pending = Vec::new();
        std::mem::swap(&mut pending, &mut self.pending_free);
        self.free_slots.append(&mut pending);
        assert(self.released() =~= rel);
    }
}

} // verus!
