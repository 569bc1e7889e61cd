//! Building a value through an initiator that is handed fresh guards.

use vstd::prelude::*;
use crate::guard::MuiGuard;
use crate::seq::{finish_all, fresh_guards, guards_over, SeqGuard};

verus! {

/// Builds a value through the initiator `f`, which is handed a fresh guard: one
/// that holds nothing, over an empty slot.
///
/// Returns `f`'s error if it fails; otherwise the value the guard then holds.
/// An initiator that returns `Ok` without giving the guard a value would make
/// this panic; `requires` leaves such initiators out.
pub fn try_init<T, E>(f: impl FnOnce(&mut MuiGuard<'_, T>) -> Result<(), E>) -> (r: Result<T, E>)
    requires
        forall|g: &mut MuiGuard<'_, T>| g.fresh() ==> #[trigger] call_requires(f, (g,)),
        forall|g: &mut MuiGuard<'_, T>, o: Result<(), E>|
            #[trigger] call_ensures(f, (g,), o) && g.fresh() ==> *final(final(g).mui) == *final(g.mui) && (o is Ok
                ==> final(g).inited()),
    ensures
        exists|g: &mut MuiGuard<'_, T>, o: Result<(), E>|
            #[trigger] call_ensures(f, (g,), o) && g.fresh() && match o {
                Ok(_) => r matches Ok(v) && final(g).val == Some(v),
                Err(e) => r == Err::<T, E>(e),
            },
{
    let mut mui: Option<T> = None;
    let mut g = MuiGuard::new(&mut mui);
    let o = f(&mut g);
    match o {
        Err(e) => Err(e),
        Ok(()) => {
            let r = g.finish();
            let v = mui.unwrap();
            Ok(v)
        },
    }
}

/// Builds a value through the initiator `f`, which is handed a fresh guard and
/// must give it a value.
///
/// An initiator that returns without giving the guard a value would make this
/// panic; `requires` leaves such initiators out.
pub fn init<T>(f: impl FnOnce(&mut MuiGuard<'_, T>)) -> (r: T)
    requires
        forall|g: &mut MuiGuard<'_, T>| g.fresh() ==> #[trigger] call_requires(f, (g,)),
        forall|g: &mut MuiGuard<'_, T>, o: ()|
            #[trigger] call_ensures(f, (g,), o) && g.fresh() ==> *final(final(g).mui) == *final(g.mui)
                && final(g).inited(),
    ensures
        exists|g: &mut MuiGuard<'_, T>|
            #[trigger] call_ensures(f, (g,), ()) && g.fresh() && final(g).val == Some(r),
{
    let mut mui: Option<T> = None;
    let mut g = MuiGuard::new(&mut mui);
    f(&mut g);
    let _ = g.finish();
    mui.unwrap()
}

/// `try_init` for a value on the heap.
pub fn try_init_boxed<T, E>(f: impl FnOnce(&mut MuiGuard<'_, T>) -> Result<(), E>) -> (r: Result<
    Box<T>,
    E,
>)
    requires
        forall|g: &mut MuiGuard<'_, T>| g.fresh() ==> #[trigger] call_requires(f, (g,)),
        forall|g: &mut MuiGuard<'_, T>, o: Result<(), E>|
            #[trigger] call_ensures(f, (g,), o) && g.fresh() ==> *final(final(g).mui) == *final(g.mui) && (o is Ok
                ==> final(g).inited()),
    ensures
        exists|g: &mut MuiGuard<'_, T>, o: Result<(), E>|
            #[trigger] call_ensures(f, (g,), o) && g.fresh() && match o {
                Ok(_) => r matches Ok(b) && final(g).val == Some(*b),
                Err(e) => r == Err::<Box<T>, E>(e),
            },
{
    match try_init(f) {
        Ok(v) => Ok(Box::new(v)),
        Err(e) => Err(e),
    }
}

/// `init` for a value on the heap.
pub fn init_boxed<T>(f: impl FnOnce(&mut MuiGuard<'_, T>)) -> (r: Box<T>)
    requires
        forall|g: &mut MuiGuard<'_, T>| g.fresh() ==> #[trigger] call_requires(f, (g,)),
        forall|g: &mut MuiGuard<'_, T>, o: ()|
            #[trigger] call_ensures(f, (g,), o) && g.fresh() ==> *final(final(g).mui) == *final(g.mui)
                && final(g).inited(),
    ensures
        exists|g: &mut MuiGuard<'_, T>|
            #[trigger] call_ensures(f, (g,), ()) && g.fresh() && final(g).val == Some(*r),
{
    Box::new(init(f))
}

/// Builds an array through the initiator `f`, which is handed a fresh
/// sequence of guards: one per element, each holding nothing over an empty
/// slot.
///
/// Returns `f`'s error if it fails; otherwise the array of the values the
/// guards then hold. An initiator that returns `Ok` while some guard holds no
/// value would make this panic; `requires` leaves such initiators out.
pub fn try_init_ary<T, E, const N: usize>(
    f: impl FnOnce(&mut SeqGuard<'_, T, N>) -> Result<(), E>,
) -> (r: Result<[T; N], E>)
    requires
        forall|s: &mut SeqGuard<'_, T, N>| s.fresh() ==> #[trigger] call_requires(f, (s,)),
        forall|s: &mut SeqGuard<'_, T, N>, o: Result<(), E>|
            #[trigger] call_ensures(f, (s,), o) && s.fresh() ==> (forall|i: int|
                0 <= i < N ==> *final((#[trigger] final(s).0@[i]).mui) == *final(s.0@[i].mui)) && (o is Ok
                ==> final(s).all_inited()),
    ensures
        exists|s: &mut SeqGuard<'_, T, N>, o: Result<(), E>|
            #[trigger] call_ensures(f, (s,), o) && s.fresh() && match o {
                Ok(_) => r matches Ok(a) && forall|i: int|
                    0 <= i < N ==> final(s).0@[i].val == Some(#[trigger] a@[i]),
                Err(e) => r == Err::<[T; N], E>(e),
            },
{
    let mut mui: [Option<T>; N] = vacant_slots();
    let mut s = SeqGuard::new(&mut mui);
    let ghost s0 = s.0@;
    let o = f(&mut s);
    match o {
        Err(e) => Err(e),
        Ok(()) => {
            assert(forall|i: int| 0 <= i < N ==> *final((#[trigger] s.0@[i]).mui) == *final(s0[i].mui));
            let ghost s1 = s.0@;
            let _ = s.finish();
            assert(forall|i: int| 0 <= i < N ==> (#[trigger] mui@[i]) == s1[i].val);
            Ok(take_values(mui))
        },
    }
}

/// Builds a boxed slice of `size` elements through the initiator `f`, which is
/// handed a fresh slice of `size` guards, each holding nothing over an empty
/// slot.
///
/// With `size == 0` it returns an empty slice without calling `f`, whatever
/// `f` is. Otherwise it returns `f`'s error if it fails, else the values the
/// guards then hold. An initiator that returns `Ok` while some guard holds no
/// value would make this panic; `requires` leaves such initiators out.
pub fn try_init_slice<T, E>(size: usize, f: impl FnOnce(&mut [MuiGuard<'_, T>]) -> Result<(), E>) -> (r:
    Result<Box<[T]>, E>)
    requires
        size > 0 ==> forall|s: &mut [MuiGuard<'_, T>]|
            s@.len() == size && fresh_guards(s@) ==> #[trigger] call_requires(f, (s,)),
        size > 0 ==> forall|s: &mut [MuiGuard<'_, T>], o: Result<(), E>|
            #[trigger] call_ensures(f, (s,), o) && s@.len() == size && fresh_guards(s@)
                ==> final(s)@.len() == size && (forall|i: int|
                0 <= i < size ==> *final((#[trigger] final(s)@[i]).mui) == *final(s@[i].mui)) && (o is Ok ==> forall|
                i: int|
                0 <= i < size ==> (#[trigger] final(s)@[i]).inited()),
    ensures
        size == 0 ==> (r matches Ok(b) && b@.len() == 0),
        size > 0 ==> exists|s: &mut [MuiGuard<'_, T>], o: Result<(), E>|
            #[trigger] call_ensures(f, (s,), o) && s@.len() == size && fresh_guards(s@) && match o {
                Ok(_) => r matches Ok(b) && b@.len() == size && forall|i: int|
                    0 <= i < size ==> final(s)@[i].val == Some(#[trigger] b@[i]),
                Err(e) => r == Err::<Box<[T]>, E>(e),
            },
{
    if size == 0 {
        return Ok(boxed_slice(Vec::new()));
    }
    let mut slots: Vec<Option<T>> = Vec::new();
    let mut i: usize = 0;
    while i < size
        invariant
            i <= size,
            slots.len() == i,
            forall|j: int| 0 <= j < i ==> (#[trigger] slots[j]) is None,
        decreases size - i,
    {
        slots.push(None);
        i = i + 1;
    }
    let mut gs = guards_over(slots.as_mut_slice());
    let o = f(gs.as_mut_slice());
    match o {
        Err(e) => Err(e),
        Ok(()) => {
            let ghost done = gs@;
            finish_all(gs);
            assert(forall|j: int| 0 <= j < size ==> (#[trigger] slots[j]) == done[j].val);
            let mut values: Vec<T> = Vec::new();
            let mut k: usize = 0;
            while k < size
                invariant
                    k <= size,
                    slots.len() == size,
                    values.len() == k,
                    forall|j: int| 0 <= j < k ==> Some(#[trigger] values[j]) == done[j].val,
                    forall|j: int| k <= j < size ==> (#[trigger] slots[j]) == done[j].val,
                    forall|j: int| 0 <= j < size ==> (#[trigger] done[j]).val is Some,
                decreases size - k,
            {
                let v = slots[k].take().unwrap();
                values.push(v);
                k = k + 1;
            }
            Ok(boxed_slice(values))
        },
    }
}

/// A boxed result with its box opened.
pub open spec fn unboxed<T, E>(r: Result<Box<T>, E>) -> Result<T, E> {
    match r {
        Ok(b) => Ok(*b),
        Err(e) => Err(e),
    }
}

/// `init` gives what `try_init` gives for the initiator that runs `f` and then
/// returns `Ok`: a value `v` is a possible result of `init(f)` exactly when
/// `Ok(v)` is a possible result of `try_init(f2)` for such an `f2`.
pub proof fn law_init_as_try_init<T, E, F: FnOnce(&mut MuiGuard<'_, T>), F2: FnOnce(
    &mut MuiGuard<'_, T>,
) -> Result<(), E>>(f: F, f2: F2, v: T)
    requires
        forall|g: &mut MuiGuard<'_, T>, o: Result<(), E>|
            #[trigger] call_ensures(f2, (g,), o) <==> (call_ensures(f, (g,), ()) && o == Ok::<(), E>(())),
    ensures
        (exists|g: &mut MuiGuard<'_, T>|
            #[trigger] call_ensures(f, (g,), ()) && g.fresh() && final(g).val == Some(v)) <==> (exists|
            g: &mut MuiGuard<'_, T>,
            o: Result<(), E>,
        |
            #[trigger] call_ensures(f2, (g,), o) && g.fresh() && match o {
                Ok(_) => Ok::<T, E>(v) matches Ok(w) && final(g).val == Some(w),
                Err(e) => Ok::<T, E>(v) == Err::<T, E>(e),
            }),
{
    if exists|g: &mut MuiGuard<'_, T>|
        #[trigger] call_ensures(f, (g,), ()) && g.fresh() && final(g).val == Some(v) {
        let g = choose|g: &mut MuiGuard<'_, T>|
            #[trigger] call_ensures(f, (g,), ()) && g.fresh() && final(g).val == Some(v);
        assert(call_ensures(f2, (g,), Ok::<(), E>(())));
    }
    if exists|g: &mut MuiGuard<'_, T>, o: Result<(), E>|
        #[trigger] call_ensures(f2, (g,), o) && g.fresh() && match o {
            Ok(_) => Ok::<T, E>(v) matches Ok(w) && final(g).val == Some(w),
            Err(e) => Ok::<T, E>(v) == Err::<T, E>(e),
        } {
        let (g, o) = choose|g: &mut MuiGuard<'_, T>, o: Result<(), E>|
            #[trigger] call_ensures(f2, (g,), o) && g.fresh() && match o {
                Ok(_) => Ok::<T, E>(v) matches Ok(w) && final(g).val == Some(w),
                Err(e) => Ok::<T, E>(v) == Err::<T, E>(e),
            };
        assert(call_ensures(f, (g,), ()));
    }
}

/// For two initiators that behave alike, the possible results of
/// `try_init_boxed` are exactly the possible results of `try_init` with the
/// value put in a box.
pub proof fn law_try_init_boxed_as_try_init<T, E, F: FnOnce(&mut MuiGuard<'_, T>) -> Result<(), E>, F2: FnOnce(
    &mut MuiGuard<'_, T>,
) -> Result<(), E>>(f: F, f2: F2, rb: Result<Box<T>, E>)
    requires
        forall|g: &mut MuiGuard<'_, T>, o: Result<(), E>|
            #[trigger] call_ensures(f2, (g,), o) <==> call_ensures(f, (g,), o),
    ensures
        (exists|g: &mut MuiGuard<'_, T>, o: Result<(), E>|
            #[trigger] call_ensures(f, (g,), o) && g.fresh() && match o {
                Ok(_) => rb matches Ok(b) && final(g).val == Some(*b),
                Err(e) => rb == Err::<Box<T>, E>(e),
            }) <==> (exists|g: &mut MuiGuard<'_, T>, o: Result<(), E>|
            #[trigger] call_ensures(f2, (g,), o) && g.fresh() && match o {
                Ok(_) => unboxed(rb) matches Ok(v) && final(g).val == Some(v),
                Err(e) => unboxed(rb) == Err::<T, E>(e),
            }),
{
    if exists|g: &mut MuiGuard<'_, T>, o: Result<(), E>|
        #[trigger] call_ensures(f, (g,), o) && g.fresh() && match o {
            Ok(_) => rb matches Ok(b) && final(g).val == Some(*b),
            Err(e) => rb == Err::<Box<T>, E>(e),
        } {
        let (g, o) = choose|g: &mut MuiGuard<'_, T>, o: Result<(), E>|
            #[trigger] call_ensures(f, (g,), o) && g.fresh() && match o {
                Ok(_) => rb matches Ok(b) && final(g).val == Some(*b),
                Err(e) => rb == Err::<Box<T>, E>(e),
            };
        assert(call_ensures(f2, (g,), o));
    }
    if exists|g: &mut MuiGuard<'_, T>, o: Result<(), E>|
        #[trigger] call_ensures(f2, (g,), o) && g.fresh() && match o {
            Ok(_) => unboxed(rb) matches Ok(v) && final(g).val == Some(v),
            Err(e) => unboxed(rb) == Err::<T, E>(e),
        } {
        let (g, o) = choose|g: &mut MuiGuard<'_, T>, o: Result<(), E>|
            #[trigger] call_ensures(f2, (g,), o) && g.fresh() && match o {
                Ok(_) => unboxed(rb) matches Ok(v) && final(g).val == Some(v),
                Err(e) => unboxed(rb) == Err::<T, E>(e),
            };
        assert(call_ensures(f, (g,), o));
    }
}

/// For two initiators that behave alike, the possible results of
/// `init_boxed` are exactly the possible results of `init` put in a box.
pub proof fn law_init_boxed_as_init<T, F: FnOnce(&mut MuiGuard<'_, T>), F2: FnOnce(&mut MuiGuard<'_, T>)>(
    f: F,
    f2: F2,
    b: Box<T>,
)
    requires
        forall|g: &mut MuiGuard<'_, T>, o: ()|
            #[trigger] call_ensures(f2, (g,), o) <==> call_ensures(f, (g,), o),
    ensures
        (exists|g: &mut MuiGuard<'_, T>|
            #[trigger] call_ensures(f, (g,), ()) && g.fresh() && final(g).val == Some(*b)) <==> (exists|
            g: &mut MuiGuard<'_, T>,
        | #[trigger] call_ensures(f2, (g,), ()) && g.fresh() && final(g).val == Some(*b)),
{
    if exists|g: &mut MuiGuard<'_, T>|
        #[trigger] call_ensures(f, (g,), ()) && g.fresh() && final(g).val == Some(*b) {
        let g = choose|g: &mut MuiGuard<'_, T>|
            #[trigger] call_ensures(f, (g,), ()) && g.fresh() && final(g).val == Some(*b);
        assert(call_ensures(f2, (g,), ()));
    }
    if exists|g: &mut MuiGuard<'_, T>|
        #[trigger] call_ensures(f2, (g,), ()) && g.fresh() && final(g).val == Some(*b) {
        let g = choose|g: &mut MuiGuard<'_, T>|
            #[trigger] call_ensures(f2, (g,), ()) && g.fresh() && final(g).val == Some(*b);
        assert(call_ensures(f, (g,), ()));
    }
}

/// Slot `_i` of a fresh array: empty.
fn vacant<T>(_i: usize) -> (r: Option<T>)
    ensures
        r is None,
{
    None
}

/// Takes the value out of a slot known to hold one.
fn take_value<T>(o: Option<T>) -> (v: T)
    requires
        o is Some,
    ensures
        o == Some(v),
{
    o.unwrap()
}

/// Calls `core::array::from_fn` with `vacant`; std documents that element `i`
/// of the result is what the function returns for `i`, so every slot is empty.
#[verifier::external_body]
fn vacant_slots<T, const N: usize>() -> (r: [Option<T>; N])
    ensures
        forall|i: int| 0 <= i < N ==> (#[trigger] r@[i]) is None,
{
    core::array::from_fn(vacant)
}

/// Calls `<[Option<T>; N]>::map` with `take_value`; std documents that element
/// `i` of the result is what the function returns for element `i`.
#[verifier::external_body]
fn take_values<T, const N: usize>(slots: [Option<T>; N]) -> (r: [T; N])
    requires
        forall|i: int| 0 <= i < N ==> (#[trigger] slots@[i]) is Some,
    ensures
        forall|i: int| 0 <= i < N ==> slots@[i] == Some(#[trigger] r@[i]),
{
    slots.map(take_value)
}

/// Calls `Vec::into_boxed_slice`, which std documents as keeping the elements
/// in order.
#[verifier::external_body]
fn boxed_slice<T>(v: Vec<T>) -> (b: Box<[T]>)
    ensures
        b@ == v@,
{
    v.into_boxed_slice()
}

} // verus!
