//! A drop guard for a slot that is being initialized.
//!
//! A slot is an `Option<T>`: `None` stands for storage that holds no value.
//! A [`MuiGuard`] borrows such a slot and keeps the value under construction;
//! writing it consumes, without dropping, what the slot held. The value
//! reaches the slot only when the guard is finished; a guard that is dropped
//! instead (for instance while unwinding from a panic) drops the value with
//! it and leaves the slot empty (or untouched, if nothing was ever written).
//! [`SeqGuard`] does the same element by element for an array of slots, and
//! [`utils`] holds helpers that build a value through an initiator.

pub mod err;
pub mod guard;
pub mod seq;
pub mod utils;

pub use err::InitErr;
pub use guard::MuiGuard;
pub use seq::SeqGuard;
