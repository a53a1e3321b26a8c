//! The scope: an ordered stack of named bindings.

use crate::dynamic::{AccessMode, Dynamic, Val};
use vstd::prelude::*;

verus! {

/// The highest index in `names` that holds `name`.
pub open spec fn last_index_of(names: Seq<Seq<char>>, name: Seq<char>) -> Option<int>
    decreases names.len(),
{
    if names.len() == 0 {
        None
    } else if names.last() == name {
        Some(names.len() - 1)
    } else {
        last_index_of(names.drop_last(), name)
    }
}

pub proof fn lemma_last_index_of(names: Seq<Seq<char>>, name: Seq<char>)
    ensures
        match last_index_of(names, name) {
            Some(i) => 0 <= i < names.len() && names[i] == name && forall|j: int|
                i < j < names.len() ==> names[j] != name,
            None => forall|j: int| 0 <= j < names.len() ==> names[j] != name,
        },
    decreases names.len(),
{
    if names.len() > 0 {
        let d = names.drop_last();
        lemma_last_index_of(d, name);
        assert forall|j: int| 0 <= j < d.len() implies d[j] == names[j] by {}
    }
}

/// A stack of named bindings. Later bindings hide earlier ones of the same
/// name; a constant binding holds a read-only value.
#[derive(Debug)]
pub struct Scope {
    names: Vec<String>,
    values: Vec<Dynamic>,
}

impl Scope {
    pub closed spec fn wf(&self) -> bool {
        self.names@.len() == self.values@.len()
    }

    /// The names of the bindings, from the bottom of the stack.
    pub closed spec fn names(&self) -> Seq<Seq<char>> {
        Seq::new(self.names@.len(), |i: int| self.names@[i]@)
    }

    /// The bound values.
    pub closed spec fn vals(&self) -> Seq<Val> {
        Seq::new(self.values@.len(), |i: int| self.values@[i]@)
    }

    /// The access modes of the bound values.
    pub closed spec fn modes(&self) -> Seq<AccessMode> {
        Seq::new(self.values@.len(), |i: int| self.values@[i].access)
    }

    /// The number of bindings.
    pub open spec fn size(&self) -> nat {
        self.names().len()
    }

    /// The names, values and access modes line up.
    pub proof fn lemma_lens(&self)
        requires
            self.wf(),
        ensures
            self.vals().len() == self.size(),
            self.modes().len() == self.size(),
    {
    }

    /// An empty scope.
    pub fn new() -> (r: Scope)
        ensures
            r.wf(),
            r.size() == 0,
    {
        Scope { names: Vec::new(), values: Vec::new() }
    }

    /// The number of bindings.
    pub fn len(&self) -> (r: usize)
        requires
            self.wf(),
        ensures
            r == self.size(),
            self.vals().len() == r,
            self.modes().len() == r,
    {
        self.names.len()
    }

    /// Bind `name` to `value` on top of the stack; a constant binding is
    /// read-only.
    pub fn push(&mut self, name: String, value: Dynamic, is_const: bool)
        requires
            old(self).wf(),
        ensures
            final(self).wf(),
            final(self).names() == old(self).names().push(name@),
            final(self).vals() == old(self).vals().push(value@),
            final(self).modes() == old(self).modes().push(
                if is_const {
                    AccessMode::ReadOnly
                } else {
                    AccessMode::ReadWrite
                },
            ),
    {
        let mut value = value;
        if is_const {
            value.access = AccessMode::ReadOnly;
        } else {
            value.access = AccessMode::ReadWrite;
        }
        self.names.push(name);
        self.values.push(value);
        proof {
            assert(self.names() =~= old(self).names().push(name@));
            assert(self.vals() =~= old(self).vals().push(value@));
            assert(self.modes() =~= old(self).modes().push(value.access));
        }
    }

    /// Drop the bindings above `size`.
    pub fn pop_to(&mut self, size: usize)
        requires
            old(self).wf(),
            size <= old(self).size(),
        ensures
            final(self).wf(),
            final(self).names() == old(self).names().subrange(0, size as int),
            final(self).vals() == old(self).vals().subrange(0, size as int),
            final(self).modes() == old(self).modes().subrange(0, size as int),
    {
        self.names.truncate(size);
        self.values.truncate(size);
        proof {
            assert(self.names() =~= old(self).names().subrange(0, size as int));
            assert(self.vals() =~= old(self).vals().subrange(0, size as int));
            assert(self.modes() =~= old(self).modes().subrange(0, size as int));
        }
    }

    /// The highest index bound to `name`, with the access mode of its value.
    pub fn get_index(&self, name: &String) -> (r: Option<(usize, AccessMode)>)
        requires
            self.wf(),
        ensures
            match last_index_of(self.names(), name@) {
                Some(i) => r is Some && r->Some_0.0 == i && r->Some_0.1 == self.modes()[i],
                None => r is None,
            },
    {
        let mut i = self.names.len();
        proof {
            assert(self.names().subrange(0, i as int) =~= self.names());
        }
        while i > 0
            invariant
                self.wf(),
                i <= self.names@.len(),
                last_index_of(self.names(), name@) == last_index_of(
                    self.names().subrange(0, i as int),
                    name@,
                ),
            decreases i,
        {
            let ghost pre = self.names().subrange(0, i as int);
            proof {
                assert(pre.drop_last() =~= self.names().subrange(0, i - 1));
            }
            if self.names[i - 1].eq(name) {
                return Some((i - 1, self.values[i - 1].access));
            }
            i = i - 1;
        }
        None
    }

    /// The value bound at `index`.
    pub fn get_by_index(&self, index: usize) -> (r: &Dynamic)
        requires
            self.wf(),
            index < self.size(),
        ensures
            r@ == self.vals()[index as int],
            r.access == self.modes()[index as int],
    {
        &self.values[index]
    }

    /// Swap the value bound at `index` with `value`.
    pub fn swap_value(&mut self, index: usize, value: &mut Dynamic)
        requires
            old(self).wf(),
            index < old(self).size(),
        ensures
            final(self).wf(),
            final(self).names() == old(self).names(),
            final(self).vals() == old(self).vals().update(index as int, old(value)@),
            final(self).modes() == old(self).modes().update(index as int, old(value).access),
            final(value)@ == old(self).vals()[index as int],
            final(value).access == old(self).modes()[index as int],
    {
        self.values.set_and_swap(index, value);
        proof {
            assert(self.names() =~= old(self).names());
            assert(self.vals() =~= old(self).vals().update(index as int, old(value)@));
            assert(self.modes() =~= old(self).modes().update(index as int, old(value).access));
        }
    }
}

} // verus!
