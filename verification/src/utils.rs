//! Small general-purpose extensions used across the crate.

use vstd::prelude::*;

verus! {

/// Assigns a new value only when one is given.
pub trait AssignOptionIf where Self: Sized {
    /// Overwrites `self` with the inner value of `new_value`, if any.
    fn assign_if(&mut self, new_value: Option<Self>)
        ensures
            *final(self) == (match new_value {
                Some(v) => v,
                None => *old(self),
            }),
    ;
}

impl<T: Sized> AssignOptionIf for T {
    fn assign_if(&mut self, new_value: Option<Self>) {
        if let Some(v) = new_value {
            *self = v;
        }
    }
}

/// Result extensions: unwrap a variant that the caller has proved is the one
/// present.  Where unchecked code would treat the other variant as
/// unreachable at run time, these methods demand the proof up front.
pub trait ResultExt<T, E>: Sized {
    /// Whether the value is the success variant.
    spec fn spec_is_ok(&self) -> bool;

    /// The success value (meaningful only when present).
    spec fn spec_ok(self) -> T;

    /// The error value (meaningful only when present).
    spec fn spec_err(self) -> E;

    /// Returns the `Ok` variant; `Err` is unreachable.
    fn unreach_err(self) -> (r: T)
        requires
            self.spec_is_ok(),
        ensures
            r == self.spec_ok(),
    ;

    /// Returns the `Err` variant; `Ok` is unreachable.
    fn unreach_ok(self) -> (r: E)
        requires
            !self.spec_is_ok(),
        ensures
            r == self.spec_err(),
    ;
}

impl<T, E> ResultExt<T, E> for Result<T, E> {
    open spec fn spec_is_ok(&self) -> bool {
        self is Ok
    }

    open spec fn spec_ok(self) -> T {
        self->Ok_0
    }

    open spec fn spec_err(self) -> E {
        self->Err_0
    }

    fn unreach_err(self) -> (r: T) {
        match self {
            Ok(v) => v,
            Err(_) => unreached(),
        }
    }

    fn unreach_ok(self) -> (r: E) {
        match self {
            Ok(_) => unreached(),
            Err(e) => e,
        }
    }
}

} // verus!
