use vstd::prelude::*;

verus! {

/// Hands out identifiers that no live holder uses, reusing those that were
/// given back.
pub struct VecUniqueIndex {
    pub free: Vec<usize>,
    pub next: usize,
    /// The identifiers handed out and not given back.
    pub in_use: Ghost<Set<usize>>,
}

impl VecUniqueIndex {
    /// The identifiers below `next` are each either free or in use; free
    /// identifiers appear once.
    pub open spec fn wf(&self) -> bool {
        &&& forall|i: int| 0 <= i < self.free@.len() ==> #[trigger] self.free@[i] < self.next
        &&& forall|i: int| 0 <= i < self.free@.len() ==> !self.in_use@.contains(#[trigger] self.free@[i])
        &&& forall|id: usize| #[trigger] self.in_use@.contains(id) ==> id < self.next
        &&& forall|i: int, j: int| 0 <= i < j < self.free@.len() ==> self.free@[i] != self.free@[j]
    }

    /// An identifier can be handed out without running out of numbers.
    pub open spec fn can_generate(&self) -> bool {
        self.free@.len() > 0 || self.next < usize::MAX
    }

    pub fn new() -> (g: VecUniqueIndex)
        ensures
            g.wf(),
            g.in_use@ == Set::<usize>::empty(),
            g.can_generate(),
    {
        VecUniqueIndex { free: Vec::new(), next: 0, in_use: Ghost(Set::empty()) }
    }

    pub fn can_gen_id(&self) -> (b: bool)
        ensures
            b == self.can_generate(),
    {
        self.free.len() > 0 || self.next < usize::MAX
    }

    /// An identifier that is not in use; it is in use from now on.
    pub fn gen_id(&mut self) -> (id: usize)
        requires
            old(self).wf(),
            old(self).can_generate(),
        ensures
            final(self).wf(),
            !old(self).in_use@.contains(id),
            final(self).in_use@ == old(self).in_use@.insert(id),
            final(self).next <= old(self).next + 1,
    {
        match self.free.pop() {
            Some(id) => {
                proof {
                    assert(old(self).free@[old(self).free@.len() - 1] == id);
                    assert forall|i: int| 0 <= i < self.free@.len() implies #[trigger] self.free@[i] != id by {
                        assert(self.free@[i] == old(self).free@[i]);
                    }
                    assert forall|i: int| 0 <= i < self.free@.len() implies !self.in_use@.insert(id).contains(#[trigger] self.free@[i]) by {
                        assert(self.free@[i] == old(self).free@[i]);
                    }
                    self.in_use@ = self.in_use@.insert(id);
                }
                id
            },
            None => {
                let id = self.next;
                self.next = self.next + 1;
                proof {
                    self.in_use@ = self.in_use@.insert(id);
                }
                id
            },
        }
    }

    /// Gives the identifier back; it may be handed out again.
    pub fn remove(&mut self, id: usize)
        requires
            old(self).wf(),
            old(self).in_use@.contains(id),
        ensures
            final(self).wf(),
            final(self).in_use@ == old(self).in_use@.remove(id),
            final(self).next == old(self).next,
    {
        self.free.push(id);
        proof {
            self.in_use@ = self.in_use@.remove(id);
            assert forall|i: int| 0 <= i < self.free@.len() implies !self.in_use@.contains(#[trigger] self.free@[i]) by {
                if i < old(self).free@.len() {
                    assert(self.free@[i] == old(self).free@[i]);
                }
            }
            assert forall|i: int, j: int| 0 <= i < j < self.free@.len() implies self.free@[i] != self.free@[j] by {
                if j == old(self).free@.len() {
                    assert(old(self).in_use@.contains(id));
                    assert(self.free@[i] == old(self).free@[i]);
                    assert(!old(self).in_use@.contains(old(self).free@[i]));
                } else {
                    assert(self.free@[i] == old(self).free@[i]);
                    assert(self.free@[j] == old(self).free@[j]);
                }
            }
        }
    }
}

} // verus!
