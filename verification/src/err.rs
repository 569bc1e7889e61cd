//! The error of an initialization that did not complete.

use vstd::prelude::*;
use vstd::string::StringExecFns;

verus! {

/// Why an initialization did not produce a value.
#[derive(Debug, Clone, Copy, PartialEq, Eq)]
pub enum InitErr<E> {
    /// The initiator returned this error.
    ErrOnInit(E),
    /// The initiator returned without giving the guard a value.
    NotInited,
}

impl<E> InitErr<E> {
    /// The message that describes this error; `rendered_err` is the inner
    /// error of an `ErrOnInit` as text (it is not used for `NotInited`).
    pub fn message(&self, rendered_err: &str) -> (m: String)
        ensures
            self is ErrOnInit ==> m@ == "An error was returned during initialization: "@ + rendered_err@,
            self is NotInited ==> m@ == "The value was not initialized in the initiator"@,
    {
        match self {
            InitErr::ErrOnInit(_) => {
                let mut m = "An error was returned during initialization: ".to_owned();
                m.append(rendered_err);
                m
            },
            InitErr::NotInited => "The value was not initialized in the initiator".to_owned(),
        }
    }

    /// Returns the inner error of an `ErrOnInit`.
    ///
    /// Calling it on `NotInited` would panic; `requires` leaves that input out.
    pub fn unwrap_init_err(self) -> (e: E)
        requires
            self is ErrOnInit,
        ensures
            self == InitErr::<E>::ErrOnInit(e),
    {
        match self {
            InitErr::ErrOnInit(err) => err,
            InitErr::NotInited => vstd::pervasive::unreached(),
        }
    }
}

} // verus!
