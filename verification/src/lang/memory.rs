use vstd::prelude::*;
use std::collections::VecDeque;
use crate::lang::error::RuntimeError;
use crate::lang::address::{MemoryAddress, MemoryItem};
use crate::lang::data::{Data, RefData};
use crate::lang::function::FunctionPointer;

verus! {

/// A value together with the number of references to it.
pub struct Counted<T> {
    value: T,
    ref_count: usize,
}

impl<T> Counted<T> {
    pub closed spec fn value(&self) -> T {
        self.value
    }

    pub closed spec fn count(&self) -> nat {
        self.ref_count as nat
    }

    /// A value with one reference.
    pub fn new(value: T) -> (r: Counted<T>)
        ensures
            r.value() == value,
            r.count() == 1,
    {
        Counted { value: value, ref_count: 1 }
    }

    pub fn get(&self) -> (r: &T)
        ensures
            *r == self.value(),
    {
        &self.value
    }

    /// One reference more; returns the new count.
    pub fn inc(&mut self) -> (r: usize)
        requires
            old(self).count() < usize::MAX,
        ensures
            final(self).value() == old(self).value(),
            final(self).count() == old(self).count() + 1,
            r == final(self).count(),
    {
        self.ref_count += 1;
        self.ref_count
    }

    /// One reference less; returns the new count.
    pub fn dec(&mut self) -> (r: usize)
        requires
            old(self).count() > 0,
        ensures
            final(self).value() == old(self).value(),
            final(self).count() == old(self).count() - 1,
            r == final(self).count(),
    {
        self.ref_count -= 1;
        self.ref_count
    }
}


/// The mathematical state of a [`Collection`].
pub struct SCollection<T> {
    /// The counted slots: each value and its number of references.
    pub counted: Seq<(T, nat)>,
    /// The slots waiting to be reused, in the order they were freed.
    pub free: Seq<usize>,
    pub fixed: Seq<T>,
}

impl<T> SCollection<T> {
    /// Every free slot is a slot of the counted storage.
    pub open spec fn bounded(self) -> bool {
        forall|i: int| 0 <= i < self.free.len() ==> #[trigger] self.free[i] < self.counted.len()
    }

    /// Every free slot is a slot of the counted storage, waits only once,
    /// and holds a value no one refers to any more.
    pub open spec fn wf(self) -> bool {
        &&& self.bounded()
        &&& forall|i: int, j: int|
            0 <= i < j < self.free.len() ==> #[trigger] self.free[i] != #[trigger] self.free[j]
        &&& forall|i: int| 0 <= i < self.free.len() ==> self.counted[#[trigger] self.free[i] as int].1 == 0
    }

    /// Whether slot `i` is free.
    pub open spec fn is_free(self, i: int) -> bool {
        exists|k: int| 0 <= k < self.free.len() && self.free[k] == i
    }
}

/// In a well formed collection a slot that is referred to is not free.
pub proof fn lemma_live_not_free<T>(m: SCollection<T>, i: int)
    requires
        m.wf(),
        0 <= i < m.counted.len(),
        m.counted[i].1 > 0,
    ensures
        !m.is_free(i),
        forall|k: int| 0 <= k < m.free.len() ==> m.free[k] != i,
{
    assert forall|k: int| 0 <= k < m.free.len() implies m.free[k] != i by {
        if m.free[k] == i {
            assert(m.counted[m.free[k] as int].1 == 0);
        }
    }
}

/// Reading a counted slot.
pub open spec fn sp_get_counted<T>(m: SCollection<T>, i: int) -> Result<T, RuntimeError> {
    if 0 <= i < m.counted.len() {
        Ok(m.counted[i].0)
    } else {
        Err(RuntimeError::CannotLoadCountedMemory)
    }
}

/// Reading a fixed slot.
pub open spec fn sp_get_fixed<T>(m: SCollection<T>, i: int) -> Result<T, RuntimeError> {
    if 0 <= i < m.fixed.len() {
        Ok(m.fixed[i])
    } else {
        Err(RuntimeError::CannotLoadFixedMemory)
    }
}

/// Storing a value with one reference: in the slot freed first, if any,
/// else in a new slot at the end. The new state and the slot.
pub open spec fn sp_insert_counted<T>(m: SCollection<T>, v: T) -> (SCollection<T>, int) {
    if m.free.len() > 0 {
        (
            SCollection { counted: m.counted.update(m.free[0] as int, (v, 1)), free: m.free.drop_first(), fixed: m.fixed },
            m.free[0] as int,
        )
    } else {
        (SCollection { counted: m.counted.push((v, 1)), free: m.free, fixed: m.fixed }, m.counted.len() as int)
    }
}

/// Storing a value in a new fixed slot. The new state and the slot.
pub open spec fn sp_insert_fixed<T>(m: SCollection<T>, v: T) -> (SCollection<T>, int) {
    (SCollection { counted: m.counted, free: m.free, fixed: m.fixed.push(v) }, m.fixed.len() as int)
}

/// One reference more to a counted slot: the new state and the new count.
pub open spec fn sp_inc<T>(m: SCollection<T>, i: int) -> (SCollection<T>, Result<int, RuntimeError>) {
    if 0 <= i < m.counted.len() {
        let c = m.counted[i].1 + 1;
        (SCollection { counted: m.counted.update(i, (m.counted[i].0, c)), free: m.free, fixed: m.fixed }, Ok(c as int))
    } else {
        (m, Err(RuntimeError::CannotIncRefCount))
    }
}

/// One reference less to a counted slot, which joins the end of the free
/// list when its count drops to zero: the new state and the new count.
pub open spec fn sp_dec<T>(m: SCollection<T>, i: int) -> (SCollection<T>, Result<int, RuntimeError>) {
    if 0 <= i < m.counted.len() {
        let c = (m.counted[i].1 - 1) as nat;
        (
            SCollection {
                counted: m.counted.update(i, (m.counted[i].0, c)),
                free: if c == 0 {
                    m.free.push(i as usize)
                } else {
                    m.free
                },
                fixed: m.fixed,
            },
            Ok(c as int),
        )
    } else {
        (m, Err(RuntimeError::CannotDecRefCount))
    }
}

impl<T> View for Collection<T> {
    type V = SCollection<T>;

    open spec fn view(&self) -> SCollection<T> {
        SCollection { counted: self.counted(), free: self.free(), fixed: self.fixed() }
    }
}

/// Every operation keeps a collection well formed, as long as references
/// are only added to and taken from slots that are referred to.
pub proof fn law_collection_ops_keep_wf<T>(m: SCollection<T>, v: T, i: int)
    requires
        m.wf(),
        i <= usize::MAX,
    ensures
        sp_insert_counted(m, v).0.wf(),
        sp_insert_fixed(m, v).0.wf(),
        0 <= i < m.counted.len() ==> m.counted[i].1 > 0 ==> sp_inc(m, i).0.wf(),
        0 <= i < m.counted.len() ==> m.counted[i].1 > 0 ==> sp_dec(m, i).0.wf(),
{
    lemma_insert_counted_wf(m, v);
    if !(0 <= i < m.counted.len()) || m.counted[i].1 > 0 {
        lemma_inc_wf(m, i);
        lemma_dec_wf(m, i);
    }
}

proof fn lemma_inc_wf<T>(m: SCollection<T>, i: int)
    requires
        m.wf(),
        0 <= i < m.counted.len() ==> m.counted[i].1 > 0,
    ensures
        sp_inc(m, i).0.wf(),
{
    if 0 <= i < m.counted.len() {
        lemma_live_not_free(m, i);
        let m3 = sp_inc(m, i).0;
        assert forall|k: int| 0 <= k < m3.free.len() implies m3.counted[#[trigger] m3.free[k] as int].1
            == 0 by {
            assert(m.free[k] != i);
        }
    }
}

proof fn lemma_dec_wf<T>(m: SCollection<T>, i: int)
    requires
        m.wf(),
        i <= usize::MAX,
        0 <= i < m.counted.len() ==> m.counted[i].1 > 0,
    ensures
        sp_dec(m, i).0.wf(),
{
    if 0 <= i < m.counted.len() {
        lemma_live_not_free(m, i);
        let m4 = sp_dec(m, i).0;
        assert forall|k: int| 0 <= k < m4.free.len() implies #[trigger] m4.free[k] < m4.counted.len() by {
            if k < m.free.len() {
                assert(m4.free[k] == m.free[k]);
            }
        }
        let c = (m.counted[i].1 - 1) as nat;
        assert forall|a: int, b: int|
            0 <= a < b < m4.free.len() implies #[trigger] m4.free[a] != #[trigger] m4.free[b] by {
            assert(m4.free[a] == m.free[a]);
            if b < m.free.len() {
                assert(m4.free[b] == m.free[b]);
            } else {
                assert(m.free[a] != i);
            }
        }
        assert forall|k: int| 0 <= k < m4.free.len() implies m4.counted[#[trigger] m4.free[k] as int].1
            == 0 by {
            if k < m.free.len() {
                assert(m4.free[k] == m.free[k]);
                assert(m.free[k] != i);
                assert(m.counted[m.free[k] as int].1 == 0);
            } else {
                assert(c == 0);
                assert(m4.free[k] == i);
            }
        }
    }
}

proof fn lemma_bounded_insert_counted<T>(m: SCollection<T>, v: T)
    requires
        m.bounded(),
    ensures
        sp_insert_counted(m, v).0.bounded(),
{
    let m1 = sp_insert_counted(m, v).0;
    assert forall|k: int| 0 <= k < m1.free.len() implies #[trigger] m1.free[k] < m1.counted.len() by {
        if m.free.len() > 0 {
            assert(m1.free[k] == m.free[k + 1]);
        }
    }
}

proof fn lemma_insert_counted_wf<T>(m: SCollection<T>, v: T)
    requires
        m.wf(),
    ensures
        sp_insert_counted(m, v).0.wf(),
{
    let m1 = sp_insert_counted(m, v).0;
    if m.free.len() > 0 {
        assert forall|k: int| 0 <= k < m1.free.len() implies #[trigger] m1.free[k] < m1.counted.len() by {
            assert(m1.free[k] == m.free[k + 1]);
        }
        assert forall|a: int, b: int|
            0 <= a < b < m1.free.len() implies #[trigger] m1.free[a] != #[trigger] m1.free[b] by {
            assert(m1.free[a] == m.free[a + 1]);
            assert(m1.free[b] == m.free[b + 1]);
        }
        assert forall|k: int| 0 <= k < m1.free.len() implies m1.counted[#[trigger] m1.free[k] as int].1
            == 0 by {
            assert(m1.free[k] == m.free[k + 1]);
            assert(m.free[0] != m.free[k + 1]);
            assert(m.counted[m.free[k + 1] as int].1 == 0);
        }
    } else {
        assert forall|k: int| 0 <= k < m1.free.len() implies m1.counted[#[trigger] m1.free[k] as int].1
            == 0 by {
            assert(m.counted[m.free[k] as int].1 == 0);
        }
    }
}

/// Storing a counted value never takes a slot that is still referred to:
/// it takes a free slot, whose count is zero, or a new one at the end.
pub proof fn law_insert_takes_dead_slot<T>(m: SCollection<T>, v: T)
    requires
        m.wf(),
    ensures
        sp_insert_counted(m, v).1 == m.counted.len() || (0 <= sp_insert_counted(m, v).1 < m.counted.len()
            && m.counted[sp_insert_counted(m, v).1].1 == 0),
{
    if m.free.len() > 0 {
        assert(m.counted[m.free[0] as int].1 == 0);
    }
}

/// Reading the slot that storing a counted value handed out gives that
/// value back, with one reference to it; no other slot changes.
pub proof fn law_read_after_insert_counted<T>(m: SCollection<T>, v: T, j: int)
    requires
        m.bounded(),
    ensures
        sp_get_counted(sp_insert_counted(m, v).0, sp_insert_counted(m, v).1) == Ok::<T, RuntimeError>(v),
        sp_insert_counted(m, v).0.counted[sp_insert_counted(m, v).1].1 == 1,
        j != sp_insert_counted(m, v).1 ==> sp_get_counted(sp_insert_counted(m, v).0, j)
            == sp_get_counted(m, j),
        sp_insert_counted(m, v).0.fixed == m.fixed,
{
    if m.free.len() > 0 {
        assert(m.free[0] < m.counted.len());
    }
}

/// Reading the fixed slot that storing a value handed out gives that value
/// back; no other slot changes.
pub proof fn law_read_after_insert_fixed<T>(m: SCollection<T>, v: T, j: int)
    ensures
        sp_get_fixed(sp_insert_fixed(m, v).0, sp_insert_fixed(m, v).1) == Ok::<T, RuntimeError>(v),
        j != sp_insert_fixed(m, v).1 ==> sp_get_fixed(sp_insert_fixed(m, v).0, j) == sp_get_fixed(m, j),
        sp_insert_fixed(m, v).0.counted == m.counted,
{
}

/// One reference more and then one less leaves the collection as it was,
/// and gives back the count it had.
pub proof fn law_inc_then_dec<T>(m: SCollection<T>, i: int)
    requires
        0 <= i < m.counted.len(),
        m.counted[i].1 > 0,
    ensures
        sp_dec(sp_inc(m, i).0, i).0 == m,
        sp_dec(sp_inc(m, i).0, i).1 == Ok::<int, RuntimeError>(m.counted[i].1 as int),
{
    let m2 = sp_dec(sp_inc(m, i).0, i).0;
    assert(m2.counted =~= m.counted);
    assert(m2.free == m.free);
    assert(m2.fixed == m.fixed);
}

/// When the last reference to a slot goes and no other slot waits to be
/// reused, the next counted value goes into that slot.
pub proof fn law_freed_slot_reused<T>(m: SCollection<T>, i: int, v: T)
    requires
        0 <= i < m.counted.len() <= usize::MAX,
        m.counted[i].1 == 1,
        m.free.len() == 0,
    ensures
        sp_dec(m, i).1 == Ok::<int, RuntimeError>(0),
        sp_insert_counted(sp_dec(m, i).0, v).1 == i,
        sp_get_counted(sp_insert_counted(sp_dec(m, i).0, v).0, i) == Ok::<T, RuntimeError>(v),
{
    assert(sp_dec(m, i).0.free =~= seq![i as usize]);
}

/// Storage of two kinds: fixed items, which live as long as the
/// collection, and reference-counted items, whose slots are reused first in
/// first out once their count drops to zero.
pub struct Collection<T> {
    counted: Vec<Counted<T>>,
    free: VecDeque<usize>,
    fixed: Vec<T>,
}

impl<T> Collection<T> {
    /// The counted slots: each value and its count.
    pub closed spec fn counted(&self) -> Seq<(T, nat)> {
        self.counted@.map_values(|c: Counted<T>| (c.value(), c.count()))
    }

    /// The slots waiting to be reused, in the order they were freed.
    pub closed spec fn free(&self) -> Seq<usize> {
        self.free@
    }

    pub closed spec fn fixed(&self) -> Seq<T> {
        self.fixed@
    }

    /// Every free slot is a slot of the counted storage.
    pub open spec fn bounded(&self) -> bool {
        self@.bounded()
    }

    /// Every free slot is a slot of the counted storage, waits only once,
    /// and holds a value no one refers to any more (see [`SCollection::wf`]).
    pub open spec fn wf(&self) -> bool {
        self@.wf()
    }

    pub fn new() -> (r: Collection<T>)
        ensures
            r.wf(),
            r.counted() == Seq::<(T, nat)>::empty(),
            r.free() == Seq::<usize>::empty(),
            r.fixed() == Seq::<T>::empty(),
    {
        let r = Collection { counted: Vec::new(), free: VecDeque::new(), fixed: Vec::new() };
        assert(r.counted() =~= Seq::<(T, nat)>::empty());
        r
    }

    /// The value in a counted slot.
    pub fn get_counted(&self, index: usize) -> (r: Result<&T, RuntimeError>)
        ensures
            index < self.counted().len() ==> (r matches Ok(v) && *v == self.counted()[index as int].0),
            index >= self.counted().len() ==> r == Err::<&T, RuntimeError>(
                RuntimeError::CannotLoadCountedMemory,
            ),
            match sp_get_counted(self@, index as int) {
                Ok(v) => r matches Ok(x) && *x == v,
                Err(e) => r == Err::<&T, RuntimeError>(e),
            },
    {
        if index < self.counted.len() {
            return Ok(self.counted[index].get());
        }
        Err(RuntimeError::CannotLoadCountedMemory)
    }

    /// The value in a fixed slot.
    pub fn get_fixed(&self, index: usize) -> (r: Result<&T, RuntimeError>)
        ensures
            index < self.fixed().len() ==> (r matches Ok(v) && *v == self.fixed()[index as int]),
            index >= self.fixed().len() ==> r == Err::<&T, RuntimeError>(
                RuntimeError::CannotLoadFixedMemory,
            ),
            match sp_get_fixed(self@, index as int) {
                Ok(v) => r matches Ok(x) && *x == v,
                Err(e) => r == Err::<&T, RuntimeError>(e),
            },
    {
        if index < self.fixed.len() {
            return Ok(&self.fixed[index]);
        }
        Err(RuntimeError::CannotLoadFixedMemory)
    }

    /// One reference more to a counted slot; returns its new count.
    pub fn inc(&mut self, index: usize) -> (r: Result<usize, RuntimeError>)
        requires
            index < old(self).counted().len() ==> old(self).counted()[index as int].1 < usize::MAX,
        ensures
            old(self).bounded() ==> final(self).bounded(),
            old(self).wf() && (index < old(self).counted().len() ==> old(self).counted()[index as int].1
                > 0) ==> final(self).wf(),
            final(self).free() == old(self).free(),
            final(self).fixed() == old(self).fixed(),
            index < old(self).counted().len() ==> {
                &&& r == Ok::<usize, RuntimeError>((old(self).counted()[index as int].1 + 1) as usize)
                &&& final(self).counted() == old(self).counted().update(
                    index as int,
                    (old(self).counted()[index as int].0, old(self).counted()[index as int].1 + 1),
                )
            },
            index >= old(self).counted().len() ==> {
                &&& r == Err::<usize, RuntimeError>(RuntimeError::CannotIncRefCount)
                &&& final(self).counted() == old(self).counted()
            },
            final(self)@ == sp_inc(old(self)@, index as int).0,
            match sp_inc(old(self)@, index as int).1 {
                Ok(c) => r == Ok::<usize, RuntimeError>(c as usize),
                Err(e) => r == Err::<usize, RuntimeError>(e),
            },
    {
        if index < self.counted.len() {
            let count = (&mut self.counted[index]).inc();
            assert(self.counted() =~= old(self).counted().update(
                index as int,
                (old(self).counted()[index as int].0, old(self).counted()[index as int].1 + 1),
            ));
            proof {
                if old(self).bounded() {
                    assert forall|i: int| 0 <= i < self.free().len() implies #[trigger] self.free()[i]
                        < self.counted().len() by {
                        if i < old(self).free().len() {
                            assert(old(self).free()[i] < old(self).counted().len());
                        }
                    }
                }
                assert(self@ == sp_inc(old(self)@, index as int).0);
                if old(self).wf() && old(self).counted()[index as int].1 > 0 {
                    lemma_inc_wf(old(self)@, index as int);
                }
            }
            return Ok(count);
        }
        Err(RuntimeError::CannotIncRefCount)
    }

    /// One reference less to a counted slot; a slot whose count drops to
    /// zero joins the end of the free list. Returns the new count.
    pub fn dec(&mut self, index: usize) -> (r: Result<usize, RuntimeError>)
        requires
            index < old(self).counted().len() ==> old(self).counted()[index as int].1 > 0,
        ensures
            old(self).bounded() ==> final(self).bounded(),
            old(self).wf() ==> final(self).wf(),
            final(self).fixed() == old(self).fixed(),
            index < old(self).counted().len() ==> {
                let c = old(self).counted()[index as int].1 - 1;
                &&& r == Ok::<usize, RuntimeError>(c as usize)
                &&& final(self).counted() == old(self).counted().update(
                    index as int,
                    (old(self).counted()[index as int].0, c as nat),
                )
                &&& final(self).free() == (if c == 0 {
                    old(self).free().push(index)
                } else {
                    old(self).free()
                })
            },
            index >= old(self).counted().len() ==> {
                &&& r == Err::<usize, RuntimeError>(RuntimeError::CannotDecRefCount)
                &&& final(self).counted() == old(self).counted()
                &&& final(self).free() == old(self).free()
            },
            final(self)@ == sp_dec(old(self)@, index as int).0,
            match sp_dec(old(self)@, index as int).1 {
                Ok(c) => r == Ok::<usize, RuntimeError>(c as usize),
                Err(e) => r == Err::<usize, RuntimeError>(e),
            },
    {
        if index < self.counted.len() {
            let count = (&mut self.counted[index]).dec();
            assert(self.counted() =~= old(self).counted().update(
                index as int,
                (old(self).counted()[index as int].0, (old(self).counted()[index as int].1 - 1) as nat),
            ));
            if count == 0 {
                self.free.push_back(index);
            }
            proof {
                if old(self).bounded() {
                    assert forall|i: int| 0 <= i < self.free().len() implies #[trigger] self.free()[i]
                        < self.counted().len() by {
                        if i < old(self).free().len() {
                            assert(old(self).free()[i] < old(self).counted().len());
                        }
                    }
                }
                assert(self@ == sp_dec(old(self)@, index as int).0);
                if old(self).wf() {
                    lemma_dec_wf(old(self)@, index as int);
                }
            }
            return Ok(count);
        }
        Err(RuntimeError::CannotDecRefCount)
    }

    /// Stores a value with one reference: in the slot freed first, if any,
    /// else in a new slot at the end. Returns the slot.
    pub fn insert_counted(&mut self, value: T) -> (r: usize)
        requires
            old(self).bounded(),
        ensures
            final(self).bounded(),
            old(self).wf() ==> final(self).wf(),
            old(self).wf() ==> r == old(self).counted().len() || old(self).counted()[r as int].1 == 0,
            final(self).fixed() == old(self).fixed(),
            old(self).free().len() > 0 ==> {
                &&& r == old(self).free()[0]
                &&& final(self).free() == old(self).free().drop_first()
                &&& final(self).counted() == old(self).counted().update(r as int, (value, 1nat))
            },
            old(self).free().len() == 0 ==> {
                &&& r == old(self).counted().len()
                &&& final(self).free() == old(self).free()
                &&& final(self).counted() == old(self).counted().push((value, 1nat))
            },
            (final(self)@, r as int) == sp_insert_counted(old(self)@, value),
    {
        proof {
            assert(self@.free == self.free());
            if self.free().len() > 0 {
                assert(self@.free[0] < self@.counted.len());
            }
            assert(self.counted().len() == self.counted@.len());
        }
        if let Some(index) = self.free.pop_front() {
            assert(self.free@ =~= old(self).free@.drop_first());
            let slot = &mut self.counted[index];
            *slot = Counted::new(value);
            assert(self.counted() =~= old(self).counted().update(index as int, (value, 1nat)));
            proof {
                assert(self@ == sp_insert_counted(old(self)@, value).0);
                law_read_after_insert_counted(old(self)@, value, 0);
                lemma_bounded_insert_counted(old(self)@, value);
                if old(self).wf() {
                    lemma_insert_counted_wf(old(self)@, value);
                    law_insert_takes_dead_slot(old(self)@, value);
                }
            }
            return index;
        }
        self.counted.push(Counted::new(value));
        assert(self.counted() =~= old(self).counted().push((value, 1nat)));
        proof {
            assert(self@ == sp_insert_counted(old(self)@, value).0);
            lemma_bounded_insert_counted(old(self)@, value);
            if old(self).wf() {
                lemma_insert_counted_wf(old(self)@, value);
            }
        }
        self.counted.len() - 1
    }

    /// Stores a value in a new fixed slot. Returns the slot.
    pub fn insert_fixed(&mut self, value: T) -> (r: usize)
        ensures
            old(self).bounded() ==> final(self).bounded(),
            old(self).wf() ==> final(self).wf(),
            final(self).counted() == old(self).counted(),
            final(self).free() == old(self).free(),
            final(self).fixed() == old(self).fixed().push(value),
            r == old(self).fixed().len(),
            (final(self)@, r as int) == sp_insert_fixed(old(self)@, value),
    {
        self.fixed.push(value);
        assert(self.counted() == old(self).counted());
        assert(self.free() == old(self).free());
        assert(self@.counted == old(self)@.counted && self@.free == old(self)@.free);
        self.fixed.len() - 1
    }
}


/// The memory of a running program: strings and functions, each in a
/// collection of fixed and reference-counted slots.
pub struct Memory {
    strings: Collection<String>,
    functions: Collection<FunctionPointer>,
}

impl Memory {
    pub closed spec fn strings(&self) -> Collection<String> {
        self.strings
    }

    pub closed spec fn functions(&self) -> Collection<FunctionPointer> {
        self.functions
    }

    /// Every free slot is a slot of its storage.
    pub open spec fn bounded(&self) -> bool {
        self.strings().bounded() && self.functions().bounded()
    }

    /// Both collections are well formed (see [`Collection::wf`]).
    pub open spec fn wf(&self) -> bool {
        self.strings().wf() && self.functions().wf()
    }

    pub fn new() -> (r: Memory)
        ensures
            r.wf(),
            r.strings().counted().len() == 0 && r.strings().free().len() == 0
                && r.strings().fixed().len() == 0,
            r.functions().counted().len() == 0 && r.functions().free().len() == 0
                && r.functions().fixed().len() == 0,
    {
        Memory { strings: Collection::new(), functions: Collection::new() }
    }

    /// The string or function an address refers to; `None` for a value
    /// held in the address itself.
    pub fn get(&self, address: &MemoryAddress) -> (r: Result<Option<RefData>, RuntimeError>)
        ensures
            match *address {
                MemoryAddress::Counted(MemoryItem::String(i)) => if i < self.strings().counted().len() {
                    r matches Ok(Some(RefData::String(s))) && *s == self.strings().counted()[i as int].0
                } else {
                    r == Err::<Option<RefData>, RuntimeError>(RuntimeError::CannotLoadCountedMemory)
                },
                MemoryAddress::Counted(MemoryItem::Function(i)) => if i < self.functions().counted().len() {
                    r matches Ok(Some(RefData::Function(f))) && *f == self.functions().counted()[i as int].0
                } else {
                    r == Err::<Option<RefData>, RuntimeError>(RuntimeError::CannotLoadCountedMemory)
                },
                MemoryAddress::Fixed(MemoryItem::String(i)) => if i < self.strings().fixed().len() {
                    r matches Ok(Some(RefData::String(s))) && *s == self.strings().fixed()[i as int]
                } else {
                    r == Err::<Option<RefData>, RuntimeError>(RuntimeError::CannotLoadFixedMemory)
                },
                MemoryAddress::Fixed(MemoryItem::Function(i)) => if i < self.functions().fixed().len() {
                    r matches Ok(Some(RefData::Function(f))) && *f == self.functions().fixed()[i as int]
                } else {
                    r == Err::<Option<RefData>, RuntimeError>(RuntimeError::CannotLoadFixedMemory)
                },
                _ => r matches Ok(None),
            },
    {
        let item = match address {
            MemoryAddress::Counted(item) => match item {
                MemoryItem::String(index) => match self.strings.get_counted(*index) {
                    Ok(s) => Some(RefData::String(s)),
                    Err(e) => return Err(e),
                },
                MemoryItem::Function(index) => match self.functions.get_counted(*index) {
                    Ok(f) => Some(RefData::Function(f)),
                    Err(e) => return Err(e),
                },
                _ => None,
            },
            MemoryAddress::Fixed(item) => match item {
                MemoryItem::String(index) => match self.strings.get_fixed(*index) {
                    Ok(s) => Some(RefData::String(s)),
                    Err(e) => return Err(e),
                },
                MemoryItem::Function(index) => match self.functions.get_fixed(*index) {
                    Ok(f) => Some(RefData::Function(f)),
                    Err(e) => return Err(e),
                },
                _ => None,
            },
        };
        Ok(item)
    }

    /// One reference more to what a counted address refers to. Only
    /// functions are counted; for anything else the count is 1.
    pub fn inc(&mut self, address: &MemoryAddress) -> (r: Result<usize, RuntimeError>)
        requires
            match *address {
                MemoryAddress::Counted(MemoryItem::Function(i)) => i < old(self).functions().counted().len()
                    ==> old(self).functions().counted()[i as int].1 < usize::MAX,
                _ => true,
            },
        ensures
            old(self).bounded() ==> final(self).bounded(),
            old(self).wf() && (match *address {
                MemoryAddress::Counted(MemoryItem::Function(i)) => i < old(self).functions().counted().len()
                    ==> old(self).functions().counted()[i as int].1 > 0,
                _ => true,
            }) ==> final(self).wf(),
            final(self).strings() == old(self).strings(),
            match *address {
                MemoryAddress::Counted(MemoryItem::Function(i)) => {
                    let fs = old(self).functions();
                    &&& final(self).functions().free() == fs.free()
                    &&& final(self).functions().fixed() == fs.fixed()
                    &&& if i < fs.counted().len() {
                        &&& r == Ok::<usize, RuntimeError>((fs.counted()[i as int].1 + 1) as usize)
                        &&& final(self).functions().counted() == fs.counted().update(
                            i as int,
                            (fs.counted()[i as int].0, fs.counted()[i as int].1 + 1),
                        )
                    } else {
                        &&& r == Err::<usize, RuntimeError>(RuntimeError::CannotIncRefCount)
                        &&& final(self).functions().counted() == fs.counted()
                    }
                },
                _ => r == Ok::<usize, RuntimeError>(1) && final(self).functions() == old(self).functions(),
            },
    {
        let count = match address {
            MemoryAddress::Counted(item) => match item {
                MemoryItem::Function(index) => match self.functions.inc(*index) {
                    Ok(c) => c,
                    Err(e) => return Err(e),
                },
                _ => 1,
            },
            MemoryAddress::Fixed(_) => 1,
        };
        Ok(count)
    }

    /// One reference less to what a counted address refers to; a function
    /// whose count drops to zero frees its slot. For anything else the
    /// count is 1.
    pub fn dec(&mut self, address: &MemoryAddress) -> (r: Result<usize, RuntimeError>)
        requires
            match *address {
                MemoryAddress::Counted(MemoryItem::Function(i)) => i < old(self).functions().counted().len()
                    ==> old(self).functions().counted()[i as int].1 > 0,
                _ => true,
            },
        ensures
            old(self).bounded() ==> final(self).bounded(),
            old(self).wf() ==> final(self).wf(),
            final(self).strings() == old(self).strings(),
            match *address {
                MemoryAddress::Counted(MemoryItem::Function(i)) => {
                    let fs = old(self).functions();
                    &&& final(self).functions().fixed() == fs.fixed()
                    &&& if i < fs.counted().len() {
                        let c = fs.counted()[i as int].1 - 1;
                        &&& r == Ok::<usize, RuntimeError>(c as usize)
                        &&& final(self).functions().counted() == fs.counted().update(
                            i as int,
                            (fs.counted()[i as int].0, c as nat),
                        )
                        &&& final(self).functions().free() == (if c == 0 {
                            fs.free().push(i)
                        } else {
                            fs.free()
                        })
                    } else {
                        &&& r == Err::<usize, RuntimeError>(RuntimeError::CannotDecRefCount)
                        &&& final(self).functions().counted() == fs.counted()
                        &&& final(self).functions().free() == fs.free()
                    }
                },
                _ => r == Ok::<usize, RuntimeError>(1) && final(self).functions() == old(self).functions(),
            },
    {
        let count = match address {
            MemoryAddress::Counted(item) => match item {
                MemoryItem::Function(index) => match self.functions.dec(*index) {
                    Ok(c) => c,
                    Err(e) => return Err(e),
                },
                _ => 1,
            },
            MemoryAddress::Fixed(_) => 1,
        };
        Ok(count)
    }

    /// Stores a value with one reference and returns its address. Strings
    /// and functions take a counted slot; other values are held in the
    /// address itself.
    pub fn insert_counted(&mut self, data: Data) -> (r: MemoryAddress)
        requires
            old(self).bounded(),
        ensures
            final(self).bounded(),
            old(self).wf() ==> final(self).wf(),
            r is Counted,
            match data {
                Data::Bool(b) => r.item() == MemoryItem::Bool(b) && *final(self) == *old(self),
                Data::Integer(i) => r.item() == MemoryItem::Integer(i) && *final(self) == *old(self),
                Data::Float(f) => r.item() == MemoryItem::Float(f) && *final(self) == *old(self),
                Data::String(s) => {
                    let ss = old(self).strings();
                    &&& final(self).functions() == old(self).functions()
                    &&& final(self).strings().fixed() == ss.fixed()
                    &&& r.item() matches MemoryItem::String(i) && if ss.free().len() > 0 {
                        &&& i == ss.free()[0]
                        &&& final(self).strings().free() == ss.free().drop_first()
                        &&& final(self).strings().counted() == ss.counted().update(i as int, (s, 1nat))
                    } else {
                        &&& i == ss.counted().len()
                        &&& final(self).strings().free() == ss.free()
                        &&& final(self).strings().counted() == ss.counted().push((s, 1nat))
                    }
                },
                Data::Function(f) => {
                    let fs = old(self).functions();
                    &&& final(self).strings() == old(self).strings()
                    &&& final(self).functions().fixed() == fs.fixed()
                    &&& r.item() matches MemoryItem::Function(i) && if fs.free().len() > 0 {
                        &&& i == fs.free()[0]
                        &&& final(self).functions().free() == fs.free().drop_first()
                        &&& final(self).functions().counted() == fs.counted().update(i as int, (f, 1nat))
                    } else {
                        &&& i == fs.counted().len()
                        &&& final(self).functions().free() == fs.free()
                        &&& final(self).functions().counted() == fs.counted().push((f, 1nat))
                    }
                },
            },
    {
        let item = match data {
            Data::Bool(b) => MemoryItem::Bool(b),
            Data::Integer(i) => MemoryItem::Integer(i),
            Data::Float(float) => MemoryItem::Float(float),
            Data::String(string) => MemoryItem::String(self.strings.insert_counted(string)),
            Data::Function(pointer) => MemoryItem::Function(self.functions.insert_counted(pointer)),
        };
        MemoryAddress::Counted(item)
    }

    /// Stores a value for the life of the memory and returns its address.
    /// Strings and functions take a new fixed slot; other values are held in
    /// the address itself.
    pub fn insert_fixed(&mut self, data: Data) -> (r: MemoryAddress)
        ensures
            old(self).bounded() ==> final(self).bounded(),
            old(self).wf() ==> final(self).wf(),
            r is Fixed,
            match data {
                Data::Bool(b) => r.item() == MemoryItem::Bool(b) && *final(self) == *old(self),
                Data::Integer(i) => r.item() == MemoryItem::Integer(i) && *final(self) == *old(self),
                Data::Float(f) => r.item() == MemoryItem::Float(f) && *final(self) == *old(self),
                Data::String(s) => {
                    &&& r.item() matches MemoryItem::String(i) && i == old(self).strings().fixed().len()
                        && final(self).strings().fixed()[i as int] == s
                    &&& final(self).functions() == old(self).functions()
                    &&& final(self).strings().counted() == old(self).strings().counted()
                    &&& final(self).strings().free() == old(self).strings().free()
                    &&& final(self).strings().fixed() == old(self).strings().fixed().push(s)
                },
                Data::Function(f) => {
                    &&& r.item() matches MemoryItem::Function(i) && i == old(self).functions().fixed().len()
                        && final(self).functions().fixed()[i as int] == f
                    &&& final(self).strings() == old(self).strings()
                    &&& final(self).functions().counted() == old(self).functions().counted()
                    &&& final(self).functions().free() == old(self).functions().free()
                    &&& final(self).functions().fixed() == old(self).functions().fixed().push(f)
                },
            },
    {
        let item = match data {
            Data::Bool(b) => MemoryItem::Bool(b),
            Data::Integer(i) => MemoryItem::Integer(i),
            Data::Float(float) => MemoryItem::Float(float),
            Data::String(string) => MemoryItem::String(self.strings.insert_fixed(string)),
            Data::Function(pointer) => MemoryItem::Function(self.functions.insert_fixed(pointer)),
        };
        MemoryAddress::Fixed(item)
    }
}

} // verus!
