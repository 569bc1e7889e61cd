//! The guard of a single slot.

use vstd::prelude::*;
use core::mem::{ManuallyDrop, MaybeUninit};
use zeroize::Zeroize;

verus! {

/// A guard over a borrowed slot that is being initialized.
///
/// `mui` is the slot; `val` is the value the guard holds for it (`None` while
/// nothing has been written). The value moves into the slot when the guard is
/// finished. A write consumes (without dropping) what the slot held, so
/// dropping an unfinished guard drops the value and leaves the slot empty.
#[derive(Debug)]
pub struct MuiGuard<'a, T> {
    /// The borrowed slot.
    pub mui: &'a mut Option<T>,
    /// The value under construction, if one has been written.
    pub val: Option<T>,
}

/// The kinds of call that change, or may change, what a guard holds.
pub enum GuardCall {
    /// `write` or `assume_init_mut`: the guard holds a value afterwards.
    Write,
    /// `drop_val` or `zeroize`: the guard holds nothing afterwards.
    Clear,
    /// `get_mut` (and, leaving the guard untouched, `is_inited` and `get_ref`):
    /// whether the guard holds a value does not change.
    Inspect,
}

/// The effect of a call of kind `c` that turns `before` into `after` on
/// whether the guard holds a value.
pub open spec fn call_effect<'a, T>(before: MuiGuard<'a, T>, after: MuiGuard<'a, T>, c: GuardCall) -> bool {
    match c {
        GuardCall::Write => after.inited(),
        GuardCall::Clear => !after.inited(),
        GuardCall::Inspect => after.inited() == before.inited(),
    }
}

/// Some call in `calls` is a write that no later call clears.
pub open spec fn written_last(calls: Seq<GuardCall>) -> bool {
    exists|k: int|
        0 <= k < calls.len() && calls[k] == GuardCall::Write && forall|j: int|
            k < j < calls.len() ==> calls[j] != GuardCall::Clear
}

impl<'a, T> MuiGuard<'a, T> {
    /// The guard holds a value, so finishing it succeeds.
    pub open spec fn inited(&self) -> bool {
        self.val is Some
    }

    /// What the slot holds now.
    pub open spec fn slot(&self) -> Option<T> {
        *self.mui
    }

    /// The guard holds nothing, over an empty slot: what the initiators of
    /// `utils` are handed.
    pub open spec fn fresh(&self) -> bool {
        self.val is None && self.slot() is None
    }

    /// What the slot holds once the guard has been finished: the held value
    /// if there is one, else the slot's own content.
    pub open spec fn settled(&self) -> Option<T> {
        match self.val {
            Some(v) => Some(v),
            None => self.slot(),
        }
    }

    /// The same guard holding `v`.
    pub open spec fn with_pending(self, v: T) -> Self {
        MuiGuard { mui: self.mui, val: Some(v) }
    }

    /// The same guard holding nothing.
    pub open spec fn without_pending(self) -> Self {
        MuiGuard { mui: self.mui, val: None }
    }

    /// Creates a new guard over `mui`, holding nothing.
    pub fn new(mui: &'a mut Option<T>) -> (g: Self)
        ensures
            g.slot() == *old(mui),
            *final(g.mui) == *final(mui),
            g.val is None,
    {
        MuiGuard { mui, val: None }
    }

    /// Gives the guard `value` and returns a mutable reference to it.
    ///
    /// This overwrites what was there before without dropping it (it is
    /// leaked): a value the guard held, and the slot's own earlier content,
    /// which leaves the slot empty. Use [`Self::get_mut`] to replace a held
    /// value properly.
    pub fn write(&mut self, value: T) -> (r: &mut T)
        ensures
            *r == value,
            final(self).val == Some(*final(r)),
            final(self).slot() is None,
            *final(final(self).mui) == *final(old(self).mui),
            call_effect(*old(self), *final(self), GuardCall::Write),
    {
        let _ = ManuallyDrop::new(self.val.take());
        let _ = ManuallyDrop::new(self.mui.take());
        self.val = Some(value);
        match &mut self.val {
            Some(v) => v,
            None => vstd::pervasive::unreached(),
        }
    }

    /// Deems the guard to hold a value and returns a mutable reference to it.
    ///
    /// If the guard holds no value yet, the slot's content is taken into the
    /// guard, leaving the slot empty; the slot must then hold a value.
    pub fn assume_init_mut(&mut self) -> (r: &mut T)
        requires
            old(self).inited() || old(self).slot() is Some,
        ensures
            old(self).inited() ==> Some(*r) == old(self).val && *final(self) == old(self).with_pending(
                *final(r),
            ),
            !old(self).inited() ==> Some(*r) == old(self).slot() && final(self).val == Some(*final(r))
                && final(self).slot() is None && *final(final(self).mui) == *final(old(self).mui),
            call_effect(*old(self), *final(self), GuardCall::Write),
    {
        if self.val.is_none() {
            self.val = self.mui.take();
        }
        match &mut self.val {
            Some(v) => v,
            None => vstd::pervasive::unreached(),
        }
    }

    /// Returns whether the guard holds a value.
    pub fn is_inited(&self) -> (b: bool)
        ensures
            b == self.inited(),
    {
        self.val.is_some()
    }

    /// Returns a shared reference to the held value, or `None` if there is none.
    pub fn get_ref(&self) -> (r: Option<&T>)
        ensures
            r is Some <==> self.inited(),
            r matches Some(v) ==> Some(*v) == self.val,
    {
        match &self.val {
            Some(v) => Some(v),
            None => None,
        }
    }

    /// Returns a mutable reference to the held value, or `None` if there is none.
    pub fn get_mut(&mut self) -> (r: Option<&mut T>)
        ensures
            r is Some <==> old(self).inited(),
            r matches Some(v) ==> Some(*v) == old(self).val
                && *final(self) == old(self).with_pending(*final(v)),
            r is None ==> *final(self) == *old(self),
            call_effect(*old(self), *final(self), GuardCall::Inspect),
    {
        match &mut self.val {
            Some(v) => Some(v),
            None => None,
        }
    }

    /// Drops the held value, if any, and returns whether there was one.
    pub fn drop_val(&mut self) -> (b: bool)
        ensures
            b == old(self).inited(),
            *final(self) == old(self).without_pending(),
            call_effect(*old(self), *final(self), GuardCall::Clear),
    {
        if self.val.is_some() {
            self.val = None;
            true
        } else {
            false
        }
    }

    /// Consumes the guard and moves the held value into the slot.
    ///
    /// Returns the guard back, unchanged, if it holds no value.
    pub fn finish(self) -> (r: Result<(), Self>)
        ensures
            r is Ok <==> self.inited(),
            r is Ok ==> *final(self.mui) == self.settled(),
            r matches Err(g) ==> g == self,
    {
        if self.val.is_some() {
            self.finish_unchecked();
            Ok(())
        } else {
            Err(self)
        }
    }

    /// Consumes the guard without checking that it holds a value: the held
    /// value, if any, moves into the slot; otherwise the slot is left as it is.
    ///
    /// What the slot held before is overwritten without being dropped.
    pub fn finish_unchecked(self)
        ensures
            *final(self.mui) == self.settled(),
    {
        let MuiGuard { mui, val } = self;
        if val.is_some() {
            let mut v = val;
            core::mem::swap(mui, &mut v);
            let _ = ManuallyDrop::new(v);
        }
    }

    /// Discards, without dropping, the held value and the slot's content: each
    /// is moved into a scratch cell whose memory is then overwritten with
    /// zeroes. The memory they were moved out of is not wiped. Afterwards the
    /// guard holds nothing and the slot is empty.
    pub fn zeroize(&mut self)
        ensures
            final(self).val is None,
            final(self).slot() is None,
            *final(final(self).mui) == *final(old(self).mui),
            call_effect(*old(self), *final(self), GuardCall::Clear),
    {
        match self.val.take() {
            Some(v) => {
                let mut cell = MaybeUninit::new(v);
                zeroize_uninit(&mut cell);
            },
            None => {},
        }
        match self.mui.take() {
            Some(v) => {
                let mut cell = MaybeUninit::new(v);
                zeroize_uninit(&mut cell);
            },
            None => {},
        }
    }
}

/// A guard that is dropped without being finished leaves in its slot what the
/// slot holds at that moment: its first content if nothing was ever written,
/// nothing once a write has consumed that content. The value the guard held
/// is dropped with it.
pub proof fn law_dropped_guard_leaves_slot<'a, T>(g: MuiGuard<'a, T>)
    requires
        has_resolved(g),
    ensures
        *final(g.mui) == g.slot(),
{
}

/// A guard holding `v` (as after `write(v)`) reads `v` back, and finishing
/// it puts exactly `v` into the slot.
pub proof fn law_finish_after_write<'a, T>(g: MuiGuard<'a, T>, v: T)
    requires
        g.val == Some(v),
    ensures
        g.inited(),
        g.settled() == Some(v),
{
}

/// Starting from a guard that holds nothing, after any sequence of calls the
/// guard holds a value exactly when some call was a `write` (or
/// `assume_init_mut`) that no later `drop_val` or `zeroize` cleared.
pub proof fn law_inited_after_calls<'a, T>(states: Seq<MuiGuard<'a, T>>, calls: Seq<GuardCall>)
    requires
        states.len() == calls.len() + 1,
        !states[0].inited(),
        forall|i: int| 0 <= i < calls.len() ==> call_effect(states[i], states[i + 1], #[trigger] calls[i]),
    ensures
        states.last().inited() <==> written_last(calls),
    decreases calls.len(),
{
    if calls.len() > 0 {
        let n = calls.len() - 1;
        let ps = states.subrange(0, n + 1);
        let pc = calls.subrange(0, n);
        assert forall|i: int| 0 <= i < pc.len() implies call_effect(ps[i], ps[i + 1], #[trigger] pc[i]) by {
            assert(calls[i] == pc[i]);
        }
        law_inited_after_calls(ps, pc);
        assert(call_effect(states[n], states[n + 1], calls[n]));
        assert(ps.last() == states[n]);
        lemma_written_last_step(calls);
        assert(calls.drop_last() == pc);
    }
}

/// How `written_last` changes when one call is appended.
proof fn lemma_written_last_step(calls: Seq<GuardCall>)
    requires
        calls.len() > 0,
    ensures
        written_last(calls) <==> (calls.last() == GuardCall::Write || (calls.last()
            != GuardCall::Clear && written_last(calls.drop_last()))),
{
    let n = calls.len() - 1;
    let pc = calls.drop_last();
    if written_last(calls) {
        let k = choose|k: int|
            0 <= k < calls.len() && calls[k] == GuardCall::Write && forall|j: int|
                k < j < calls.len() ==> calls[j] != GuardCall::Clear;
        if k < n {
            assert(pc[k] == GuardCall::Write);
            assert forall|j: int| k < j < pc.len() implies pc[j] != GuardCall::Clear by {
                assert(pc[j] == calls[j]);
            }
            assert(calls[n] != GuardCall::Clear);
        }
    }
    if calls.last() == GuardCall::Write {
        assert(calls[n] == GuardCall::Write);
    }
    if calls.last() != GuardCall::Clear && written_last(pc) {
        let k = choose|k: int|
            0 <= k < pc.len() && pc[k] == GuardCall::Write && forall|j: int|
                k < j < pc.len() ==> pc[j] != GuardCall::Clear;
        assert(calls[k] == GuardCall::Write);
        assert forall|j: int| k < j < calls.len() implies calls[j] != GuardCall::Clear by {
            if j < n {
                assert(pc[j] == calls[j]);
            }
        }
    }
}

/// Calls `<MaybeUninit<Z> as zeroize::Zeroize>::zeroize`, which overwrites the
/// cell's memory with zeroes without dropping what it held. Nothing is stated
/// of the cell afterwards: all-zero bytes need not form a valid `Z`.
#[verifier::external_body]
fn zeroize_uninit<Z>(cell: &mut MaybeUninit<Z>) {
    cell.zeroize();
}

} // verus!
