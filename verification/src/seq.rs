//! A sequence of guards over an array of slots.

use vstd::prelude::*;
use crate::guard::MuiGuard;

verus! {

/// One guard per slot of an array of `N` slots; guard `i` borrows slot `i`.
#[derive(Debug)]
pub struct SeqGuard<'a, T, const N: usize>(pub [MuiGuard<'a, T>; N]);

/// Every guard of `gs` is fresh: it holds nothing, over an empty slot.
pub open spec fn fresh_guards<'a, T>(gs: Seq<MuiGuard<'a, T>>) -> bool {
    forall|i: int| 0 <= i < gs.len() ==> (#[trigger] gs[i]).fresh()
}

/// Builds one fresh guard for each slot of `slots`, in order.
pub(crate) fn guards_over<'a, T>(slots: &'a mut [Option<T>]) -> (gs: Vec<MuiGuard<'a, T>>)
    ensures
        gs.len() == old(slots)@.len(),
        final(slots)@.len() == old(slots)@.len(),
        forall|i: int|
            0 <= i < gs.len() ==> (#[trigger] gs[i]).val is None && gs[i].slot() == old(slots)@[i]
                && *final(gs[i].mui) == final(slots)@[i],
{
    let ghost init = old(slots)@;
    let ghost fin = final(slots)@;
    let n = slots.len();
    let mut rest: &'a mut [Option<T>] = slots;
    let mut gs: Vec<MuiGuard<'a, T>> = Vec::new();
    let mut i: usize = 0;
    while i < n
        invariant
            i <= n,
            n == init.len(),
            gs.len() == i,
            rest@ == init.subrange(i as int, n as int),
            final(rest)@ == fin.subrange(i as int, fin.len() as int),
            i <= fin.len(),
            forall|j: int|
                0 <= j < i ==> (#[trigger] gs[j]).val is None && gs[j].slot() == init[j]
                    && *final(gs[j].mui) == fin[j],
        decreases n - i,
    {
        let ghost rest_fin = final(rest)@;
        let (head, tail) = rest.split_at_mut(1);
        let ghost head_fin = final(head)@;
        let ghost tail_fin = final(tail)@;
        let g = MuiGuard::new(head.first_mut().unwrap());
        proof {
            assert(head_fin =~= seq![*final(g.mui)]);
            assert(rest_fin[0] == head_fin[0]);
            assert(tail_fin =~= rest_fin.subrange(1, rest_fin.len() as int));
            assert(fin.subrange(i + 1, fin.len() as int) =~= tail_fin);
        }
        gs.push(g);
        rest = tail;
        i = i + 1;
    }
    proof {
        assert(final(rest)@.len() == 0) by {
            assert(rest@.len() == 0);
        }
    }
    gs
}

/// Finishes every guard of `gs` without checking it.
pub(crate) fn finish_all<'a, T>(gs: Vec<MuiGuard<'a, T>>)
    ensures
        forall|i: int| 0 <= i < gs.len() ==> *final((#[trigger] gs[i]).mui) == gs[i].settled(),
{
    let ghost all = gs@;
    let mut gs = gs;
    while gs.len() > 0
        invariant
            gs.len() <= all.len(),
            forall|i: int| 0 <= i < gs.len() ==> gs[i] == all[i],
            forall|i: int|
                gs.len() <= i < all.len() ==> *final((#[trigger] all[i]).mui) == all[i].settled(),
        decreases gs.len(),
    {
        let g = gs.pop().unwrap();
        g.finish_unchecked();
    }
}

impl<'a, T, const N: usize> SeqGuard<'a, T, N> {
    /// Every guard is fresh: it holds nothing, over an empty slot.
    pub open spec fn fresh(&self) -> bool {
        fresh_guards(self.0@)
    }

    /// Every guard holds a value.
    pub open spec fn all_inited(&self) -> bool {
        forall|i: int| 0 <= i < N ==> (#[trigger] self.0@[i]).inited()
    }

    /// Creates one fresh guard for each slot of `mui_seq`.
    pub fn new(mui_seq: &'a mut [Option<T>; N]) -> (s: Self)
        ensures
            forall|i: int|
                0 <= i < N ==> (#[trigger] s.0@[i]).val is None && s.0@[i].slot() == old(mui_seq)@[i]
                    && *final(s.0@[i].mui) == final(mui_seq)@[i],
    {
        let gs = guards_over(mui_seq);
        match vec_into_array(gs) {
            Ok(a) => SeqGuard(a),
            Err(_) => vstd::pervasive::unreached(),
        }
    }

    /// Returns a shared reference to the value held by guard `idx`, or `None`
    /// if that guard holds none or `idx` is out of bounds.
    pub fn get_ref(&self, idx: usize) -> (r: Option<&T>)
        ensures
            r is Some <==> idx < N && self.0@[idx as int].inited(),
            r matches Some(v) ==> Some(*v) == self.0@[idx as int].val,
    {
        if idx < N {
            self.0[idx].get_ref()
        } else {
            None
        }
    }

    /// Returns a mutable reference to the value held by guard `idx`, or `None`
    /// if that guard holds none or `idx` is out of bounds.
    pub fn get_mut(&mut self, idx: usize) -> (r: Option<&mut T>)
        ensures
            r is Some <==> idx < N && old(self).0@[idx as int].inited(),
            r matches Some(v) ==> Some(*v) == old(self).0@[idx as int].val
                && final(self).0@ == old(self).0@.update(
                idx as int,
                old(self).0@[idx as int].with_pending(*final(v)),
            ),
            r is None ==> final(self).0@ == old(self).0@,
    {
        if idx < N {
            let ghost before = self.0@;
            let ghost after = final(self).0@;
            let r = self.0[idx].get_mut();
            proof {
                if r is None {
                    assert(after =~= before);
                }
            }
            r
        } else {
            None
        }
    }

    /// Returns whether every guard holds a value.
    pub fn is_all_inited(&self) -> (b: bool)
        ensures
            b == self.all_inited(),
    {
        let mut i: usize = 0;
        while i < N
            invariant
                i <= N,
                forall|j: int| 0 <= j < i ==> (#[trigger] self.0@[j]).inited(),
            decreases N - i,
        {
            if !self.0[i].is_inited() {
                return false;
            }
            i = i + 1;
        }
        true
    }

    /// Consumes the guards without checking them: each held value moves into
    /// its slot, and a slot whose guard holds nothing is left as it is.
    pub fn finish_unchecked(self)
        ensures
            forall|i: int|
                0 <= i < N ==> *final((#[trigger] self.0@[i]).mui) == self.0@[i].settled(),
    {
        finish_all(array_into_vec(self.0));
    }

    /// Consumes the guards and moves every held value into its slot.
    ///
    /// Returns the guards back, unchanged, unless every one holds a value.
    pub fn finish(self) -> (r: Result<(), Self>)
        ensures
            r is Ok <==> self.all_inited(),
            r is Ok ==> forall|i: int|
                0 <= i < N ==> *final((#[trigger] self.0@[i]).mui) == self.0@[i].settled(),
            r matches Err(s) ==> s == self,
    {
        if self.is_all_inited() {
            self.finish_unchecked();
            Ok(())
        } else {
            Err(self)
        }
    }
}

/// Calls `<[T; N] as TryFrom<Vec<T>>>::try_from`, which std documents as
/// succeeding exactly when the vector's length is `N`, keeping the elements in
/// order, and otherwise handing the vector back.
#[verifier::external_body]
fn vec_into_array<T, const N: usize>(v: Vec<T>) -> (r: Result<[T; N], Vec<T>>)
    ensures
        r is Ok <==> v.len() == N,
        r matches Ok(a) ==> a@ == v@,
        r matches Err(w) ==> w@ == v@,
{
    <[T; N]>::try_from(v)
}

/// Calls `<Vec<T> as From<[T; N]>>::from`, which std documents as moving the
/// array's elements, in order, into a new vector.
#[verifier::external_body]
fn array_into_vec<T, const N: usize>(a: [T; N]) -> (v: Vec<T>)
    ensures
        v@ == a@,
{
    Vec::from(a)
}

/// When only guard `i` of a sequence changes, and it comes to hold `v` (as by
/// a `write` through `deref_mut`), `get_ref(i)` then reads `v` and the
/// sequence holds a value everywhere exactly when every other guard already
/// did.
pub proof fn law_seq_write_then_read<'a, T, const N: usize>(
    before: SeqGuard<'a, T, N>,
    after: SeqGuard<'a, T, N>,
    i: int,
    v: T,
)
    requires
        0 <= i < N,
        after.0@[i].val == Some(v),
        forall|j: int| 0 <= j < N && j != i ==> after.0@[j] == before.0@[j],
    ensures
        after.0@[i].inited(),
        after.all_inited() <==> forall|j: int|
            0 <= j < N && j != i ==> (#[trigger] before.0@[j]).inited(),
{
    if forall|j: int| 0 <= j < N && j != i ==> (#[trigger] before.0@[j]).inited() {
        assert forall|j: int| 0 <= j < N implies (#[trigger] after.0@[j]).inited() by {
            if j != i {
                assert(before.0@[j].inited());
            }
        }
    }
    if after.all_inited() {
        assert forall|j: int| 0 <= j < N && j != i implies (#[trigger] before.0@[j]).inited() by {
            assert(after.0@[j].inited());
        }
    }
}

/// Guards that are dropped without being finished leave in each slot what it
/// holds at that moment (nothing, once a write has consumed its content); the
/// values they held are dropped with them.
pub proof fn law_dropped_seq_leaves_slots<'a, T, const N: usize>(s: SeqGuard<'a, T, N>)
    requires
        has_resolved(s),
    ensures
        forall|i: int| 0 <= i < N ==> *final((#[trigger] s.0@[i]).mui) == s.0@[i].slot(),
{
    assert forall|i: int| 0 <= i < N implies *final((#[trigger] s.0@[i]).mui) == s.0@[i].slot() by {
        assert(has_resolved(s.0));
        assert(has_resolved(s.0@[i]));
    }
}

impl<'a, T, const N: usize> core::ops::Deref for SeqGuard<'a, T, N> {
    type Target = [MuiGuard<'a, T>; N];

    /// The guards, in slot order.
    fn deref(&self) -> (r: &[MuiGuard<'a, T>; N])
        ensures
            r@ == self.0@,
    {
        &self.0
    }
}

impl<'a, T, const N: usize> core::ops::DerefMut for SeqGuard<'a, T, N> {
    /// The guards, in slot order, for writing.
    fn deref_mut(&mut self) -> (r: &mut [MuiGuard<'a, T>; N])
        ensures
            r@ == old(self).0@,
            final(r)@ == final(self).0@,
    {
        &mut self.0
    }
}

} // verus!
