//! An indexed container with stable `usize` handles.
//!
//! A handle stays valid from the `push` that returned it until the `remove`
//! that is given it. A vacated slot is reused by a later `push`, the lowest
//! slot first.

use vstd::prelude::*;

verus! {

/// The lowest vacant position of `s`, or its length where every slot is taken.
pub open spec fn first_vacant<T>(s: Seq<Option<T>>) -> int
    decreases s.len(),
{
    if s.len() == 0 {
        0
    } else if s[0] is None {
        0
    } else {
        1 + first_vacant(s.drop_first())
    }
}

/// The number of occupied slots of `s`.
pub open spec fn live_count<T>(s: Seq<Option<T>>) -> nat
    decreases s.len(),
{
    if s.len() == 0 {
        0
    } else {
        live_count(s.drop_last()) + if s.last() is Some { 1nat } else { 0nat }
    }
}

/// The occupied positions of `s` from `from` on, in ascending order.
pub open spec fn live_indices<T>(s: Seq<Option<T>>, from: int) -> Seq<int>
    decreases s.len() - from,
{
    if from < 0 || from >= s.len() {
        Seq::empty()
    } else if s[from] is Some {
        seq![from] + live_indices(s, from + 1)
    } else {
        live_indices(s, from + 1)
    }
}

/// What `get` finds at `idx`: nothing for a vacant slot or one past the end.
pub open spec fn slot<T>(s: Seq<Option<T>>, idx: int) -> Option<T> {
    if 0 <= idx < s.len() {
        s[idx]
    } else {
        None
    }
}

/// The slots after `value` went into the lowest vacant one.
pub open spec fn pushed<T>(s: Seq<Option<T>>, value: T) -> Seq<Option<T>> {
    let at = first_vacant(s);
    if at < s.len() {
        s.update(at, Some(value))
    } else {
        s.push(Some(value))
    }
}

/// The slots after slot `idx` was vacated.
pub open spec fn removed<T>(s: Seq<Option<T>>, idx: int) -> Seq<Option<T>> {
    if 0 <= idx < s.len() {
        s.update(idx, None)
    } else {
        s
    }
}

/// `first_vacant` is the one position below which every slot is taken and
/// which is itself vacant or the end.
pub proof fn lemma_first_vacant<T>(s: Seq<Option<T>>)
    ensures
        0 <= first_vacant(s) <= s.len(),
        forall|j: int| 0 <= j < first_vacant(s) ==> (#[trigger] s[j]) is Some,
        first_vacant(s) < s.len() ==> s[first_vacant(s)] is None,
    decreases s.len(),
{
    if s.len() > 0 && s[0] is Some {
        let t = s.drop_first();
        lemma_first_vacant(t);
        assert forall|j: int| 0 <= j < first_vacant(s) implies (#[trigger] s[j]) is Some by {
            if j > 0 {
                assert(s[j] == t[j - 1]);
            }
        }
        if first_vacant(t) < t.len() {
            assert(s[first_vacant(s)] == t[first_vacant(t)]);
        }
    }
}

/// A position with the two properties of `lemma_first_vacant` is `first_vacant`.
pub proof fn lemma_first_vacant_is<T>(s: Seq<Option<T>>, at: int)
    requires
        0 <= at <= s.len(),
        forall|j: int| 0 <= j < at ==> (#[trigger] s[j]) is Some,
        at < s.len() ==> s[at] is None,
    ensures
        first_vacant(s) == at,
{
    lemma_first_vacant(s);
    let f = first_vacant(s);
    if f < at {
        assert(s[f] is Some);
    } else if at < f {
        assert(s[at] is Some);
    }
}

/// A cursor over the occupied slots of a `Slab`, in ascending index order.
pub struct SlabIter<'a, T> {
    entries: &'a Vec<Option<T>>,
    pos: usize,
}

impl<'a, T> SlabIter<'a, T> {
    /// The slots of the slab that is walked.
    pub closed spec fn slots(&self) -> Seq<Option<T>> {
        self.entries@
    }

    /// The position from which the next element is looked for.
    pub closed spec fn cursor(&self) -> int {
        self.pos as int
    }

    /// The cursor lies within the slots or at their end.
    pub closed spec fn wf(&self) -> bool {
        self.pos <= self.entries@.len()
    }

    /// The first occupied slot at or after the cursor, with the cursor moved
    /// past it; `None`, with the cursor at the end, when there is none left.
    pub fn next(&mut self) -> (r: Option<&'a T>)
        requires
            old(self).wf(),
        ensures
            final(self).wf(),
            final(self).slots() == old(self).slots(),
            old(self).cursor() <= final(self).cursor() <= old(self).slots().len(),
            live_indices(old(self).slots(), old(self).cursor()).len() == 0 ==> r is None
                && final(self).cursor() == old(self).slots().len(),
            live_indices(old(self).slots(), old(self).cursor()).len() > 0 ==> {
                let at = live_indices(old(self).slots(), old(self).cursor())[0];
                &&& old(self).cursor() <= at < old(self).slots().len()
                &&& r is Some
                &&& old(self).slots()[at] == Some(*r.unwrap())
                &&& final(self).cursor() == at + 1
                &&& live_indices(final(self).slots(), final(self).cursor()) == live_indices(
                    old(self).slots(),
                    old(self).cursor(),
                ).drop_first()
            },
    {
        let ghost start = self.pos as int;
        while self.pos < self.entries.len()
            invariant
                self.entries == old(self).entries,
                start == old(self).pos,
                start <= self.pos <= self.entries.len(),
                live_indices(self.entries@, self.pos as int) == live_indices(self.entries@, start),
            decreases self.entries.len() - self.pos,
        {
            let at = self.pos;
            self.pos = at + 1;
            match &self.entries[at] {
                Some(v) => {
                    assert(live_indices(self.entries@, at as int) == seq![at as int] + live_indices(
                        self.entries@,
                        at + 1,
                    ));
                    assert(live_indices(self.entries@, at as int).drop_first() == live_indices(
                        self.entries@,
                        at + 1,
                    ));
                    return Some(v);
                },
                None => {},
            }
        }
        None
    }
}

/// A cursor over the occupied slots of a `Slab` that hands out each element
/// for writing, in ascending index order.
pub struct SlabIterMut<'a, T> {
    pub entries: &'a mut Vec<Option<T>>,
    pub pos: usize,
}

impl<'a, T> SlabIterMut<'a, T> {
    /// The slots of the slab that is walked, as they are now.
    pub open spec fn slots(&self) -> Seq<Option<T>> {
        self.entries@
    }

    /// The position from which the next element is looked for.
    pub open spec fn cursor(&self) -> int {
        self.pos as int
    }

    /// The cursor lies within the slots or at their end.
    pub open spec fn wf(&self) -> bool {
        self.pos <= self.entries@.len()
    }

    /// The first occupied slot at or after the cursor, for writing, with the
    /// cursor moved past it; `None`, with the cursor at the end, when there is
    /// none left. Whatever is written, the slot stays occupied and the other
    /// slots stay as they are.
    pub fn next(&mut self) -> (r: Option<&mut T>)
        requires
            old(self).wf(),
        ensures
            final(self).pos <= final(self).entries@.len(),
            old(self).cursor() <= final(self).cursor() <= old(self).slots().len(),
            live_indices(old(self).slots(), old(self).cursor()).len() == 0 ==> r is None
                && final(self).cursor() == old(self).slots().len() && final(self).slots() == old(
                self,
            ).slots(),
            live_indices(old(self).slots(), old(self).cursor()).len() > 0 ==> {
                let at = live_indices(old(self).slots(), old(self).cursor())[0];
                &&& old(self).cursor() <= at < old(self).slots().len()
                &&& r is Some
                &&& old(self).slots()[at] == Some(*r.unwrap())
                &&& final(self).cursor() == at + 1
                &&& final(self).slots() == old(self).slots().update(at, Some(*final(r.unwrap())))
                &&& live_indices(old(self).slots(), at + 1) == live_indices(
                    old(self).slots(),
                    old(self).cursor(),
                ).drop_first()
            },
    {
        let ghost start = self.pos as int;
        while self.pos < self.entries.len() && self.entries[self.pos].is_none()
            invariant
                self.entries@ == old(self).entries@,
                start == old(self).pos,
                start <= self.pos <= self.entries.len(),
                live_indices(self.entries@, self.pos as int) == live_indices(self.entries@, start),
            decreases self.entries.len() - self.pos,
        {
            self.pos = self.pos + 1;
        }
        if self.pos < self.entries.len() {
            let at = self.pos;
            self.pos = at + 1;
            assert(live_indices(self.entries@, at as int) == seq![at as int] + live_indices(
                self.entries@,
                at + 1,
            ));
            assert(live_indices(self.entries@, at as int).drop_first() == live_indices(
                self.entries@,
                at + 1,
            ));
            self.entries[at].as_mut()
        } else {
            None
        }
    }
}

/// The container. Its view is the sequence of its slots, vacant ones included.
#[derive(Debug)]
pub struct Slab<T> {
    entries: Vec<Option<T>>,
    last_free: usize,
}

impl<T> View for Slab<T> {
    type V = Seq<Option<T>>;

    closed spec fn view(&self) -> Seq<Option<T>> {
        self.entries@
    }
}

impl<T> Slab<T> {
    /// The free-slot hint lies within the slots and every slot below it is
    /// occupied.
    pub closed spec fn wf(&self) -> bool {
        &&& self.last_free <= self.entries.len()
        &&& forall|j: int| 0 <= j < self.last_free ==> (#[trigger] self.entries@[j]) is Some
    }

    /// Slot `idx` is occupied.
    pub open spec fn contains(&self, idx: int) -> bool {
        slot(self@, idx) is Some
    }

    pub fn new() -> (r: Self)
        ensures
            r.wf(),
            r@ == Seq::<Option<T>>::empty(),
    {
        Self { entries: Vec::new(), last_free: 0 }
    }

    pub fn with_capacity(capacity: usize) -> (r: Self)
        ensures
            r.wf(),
            r@ == Seq::<Option<T>>::empty(),
    {
        Self { entries: Vec::with_capacity(capacity), last_free: 0 }
    }

    /// Puts `value` into the lowest vacant slot, or into a new slot at the end
    /// where none is vacant, and returns that slot's index.
    pub fn push(&mut self, value: T) -> (idx: usize)
        requires
            old(self).wf(),
        ensures
            final(self).wf(),
            idx == first_vacant(old(self)@),
            final(self)@ == pushed(old(self)@, value),
    {
        let mut at = self.last_free;
        while at < self.entries.len() && self.entries[at].is_some()
            invariant
                self.entries == old(self).entries,
                self.last_free <= at <= self.entries.len(),
                forall|j: int| 0 <= j < at ==> (#[trigger] self.entries@[j]) is Some,
            decreases self.entries.len() - at,
        {
            at += 1;
        }
        proof {
            lemma_first_vacant_is(self.entries@, at as int);
        }
        if at < self.entries.len() {
            self.entries[at] = Some(value);
            self.last_free = at + 1;
        } else {
            self.entries.push(Some(value));
            self.last_free = self.entries.len();
        }
        at
    }

    /// Vacates slot `idx` and returns what it held; nothing happens for a
    /// vacant slot or one past the end.
    pub fn remove(&mut self, index: usize) -> (r: Option<T>)
        requires
            old(self).wf(),
        ensures
            final(self).wf(),
            r == slot(old(self)@, index as int),
            final(self)@ == removed(old(self)@, index as int),
    {
        if index >= self.entries.len() {
            return None;
        }
        let value = self.entries[index].take();
        if self.last_free > index {
            self.last_free = index;
        }
        value
    }

    /// A cursor at the first slot.
    pub fn iter<'a>(&'a self) -> (r: SlabIter<'a, T>)
        ensures
            r.wf(),
            r.slots() == self@,
            r.cursor() == 0,
    {
        SlabIter { entries: &self.entries, pos: 0 }
    }

    /// A writing cursor at the first slot. What is written through it is what
    /// the slab holds afterwards.
    pub fn iter_mut<'a>(&'a mut self) -> (r: SlabIterMut<'a, T>)
        requires
            old(self).wf(),
        ensures
            r.wf(),
            r.slots() == old(self)@,
            r.cursor() == 0,
            final(self)@ == final(r.entries)@,
    {
        SlabIterMut { entries: &mut self.entries, pos: 0 }
    }

    /// Empties the slab: no slot is left, occupied or vacant.
    pub fn clear(&mut self)
        ensures
            final(self).wf(),
            final(self)@ == Seq::<Option<T>>::empty(),
    {
        self.entries.clear();
        self.last_free = 0;
    }

    /// The number of slots, vacant ones included.
    pub fn max_len(&self) -> (r: usize)
        ensures
            r == self@.len(),
    {
        self.entries.len()
    }

    pub fn get(&self, idx: usize) -> (r: Option<&T>)
        ensures
            r is Some <==> slot(self@, idx as int) is Some,
            r is Some ==> *r.unwrap() == slot(self@, idx as int).unwrap(),
    {
        if idx < self.entries.len() {
            self.entries[idx].as_ref()
        } else {
            None
        }
    }

    /// The element of slot `idx` for writing; `None` for a vacant slot or one
    /// past the end. Whatever is written, the slot stays occupied and the
    /// other slots stay as they are.
    pub fn get_mut(&mut self, idx: usize) -> (r: Option<&mut T>)
        ensures
            old(self).wf() ==> final(self).wf(),
            slot(old(self)@, idx as int) is None ==> r is None && final(self)@ == old(self)@,
            slot(old(self)@, idx as int) is Some ==> r is Some && *r.unwrap() == slot(
                old(self)@,
                idx as int,
            ).unwrap() && final(self)@ == old(self)@.update(idx as int, Some(*final(r.unwrap()))),
    {
        if idx < self.entries.len() {
            self.entries[idx].as_mut()
        } else {
            None
        }
    }

    /// The number of occupied slots.
    pub fn len(&self) -> (r: usize)
        ensures
            r == live_count(self@),
    {
        let mut len: usize = 0;
        let n = self.entries.len();
        for i in 0..n
            invariant
                n == self.entries.len(),
                len == live_count(self.entries@.take(i as int)),
                len <= i,
        {
            assert(self.entries@.take(i + 1).drop_last() == self.entries@.take(i as int));
            if self.entries[i].is_some() {
                len += 1;
            }
        }
        assert(self.entries@.take(n as int) == self.entries@);
        len
    }
}

impl<T> vstd::std_specs::core::IndexSpecImpl<usize> for Slab<T> {
    /// Only an occupied slot can be indexed.
    open spec fn index_req(&self, index: &usize) -> bool {
        self.contains(*index as int)
    }
}

impl<T> std::ops::Index<usize> for Slab<T> {
    type Output = T;

    /// The element of an occupied slot.
    fn index(&self, index: usize) -> (r: &T)
        ensures
            Some(*r) == self@[index as int],
    {
        match &self.entries[index] {
            Some(v) => v,
            None => unreached(),
        }
    }
}

impl<T> Slab<T> {
    /// The element of an occupied slot, for writing. The slot stays occupied
    /// and the other slots stay as they are.
    pub fn index_mut(&mut self, index: usize) -> (r: &mut T)
        requires
            old(self).contains(index as int),
        ensures
            old(self).wf() ==> final(self).wf(),
            Some(*r) == old(self)@[index as int],
            final(self)@ == old(self)@.update(index as int, Some(*final(r))),
    {
        match &mut self.entries[index] {
            Some(v) => v,
            None => unreached(),
        }
    }
}

/// A slot that was just filled holds what was pushed.
pub proof fn law_push_then_get<T>(s: Seq<Option<T>>, value: T)
    ensures
        slot(pushed(s, value), first_vacant(s)) == Some(value),
{
    lemma_first_vacant(s);
}

/// A push fills a vacant slot only: every occupied slot keeps its element.
pub proof fn law_push_keeps_others<T>(s: Seq<Option<T>>, value: T, idx: int)
    requires
        slot(s, idx) is Some,
    ensures
        slot(pushed(s, value), idx) == slot(s, idx),
{
    lemma_first_vacant(s);
}

/// Removing one slot leaves every other slot as it was.
pub proof fn law_remove_keeps_others<T>(s: Seq<Option<T>>, gone: int, idx: int)
    requires
        gone != idx,
    ensures
        slot(removed(s, gone), idx) == slot(s, idx),
{
}

/// A removed slot is vacant, and removing it again changes nothing.
pub proof fn law_remove_vacates<T>(s: Seq<Option<T>>, idx: int)
    ensures
        slot(removed(s, idx), idx) is None,
        removed(removed(s, idx), idx) == removed(s, idx),
{
}

/// After a slot was removed, the next push goes to that slot or to a lower
/// one, and where it goes to that slot, the slot holds the new element.
pub proof fn law_remove_then_push<T>(s: Seq<Option<T>>, idx: int, value: T)
    requires
        0 <= idx < s.len(),
    ensures
        first_vacant(removed(s, idx)) <= idx,
        first_vacant(removed(s, idx)) == idx ==> slot(pushed(removed(s, idx), value), idx) == Some(
            value,
        ),
{
    let t = removed(s, idx);
    lemma_first_vacant(t);
    if first_vacant(t) > idx {
        assert(t[idx] is Some);
    }
}

} // verus!
