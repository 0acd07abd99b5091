//! A small convenience for testing the inner value of an `Option` or a
//! `Result` against a predicate, treating `None` and `Err` as a mismatch.

use vstd::prelude::*;

verus! {

/// Containers that either hold one inner value or nothing useful.
pub trait InnerMatches<T>: Sized {
    /// The inner value, if the container holds one.
    spec fn inner(self) -> Option<T>;

    /// Whether the container holds an inner value satisfying `predicate`.
    fn inner_is<F: FnOnce(T) -> bool>(self, predicate: F) -> (r: bool)
        requires
            self.inner() matches Some(v) ==> call_requires(predicate, (v,)),
        ensures
            match self.inner() {
                Some(v) => call_ensures(predicate, (v,), r),
                None => !r,
            },
    ;
}

impl<T> InnerMatches<T> for Option<T> {
    open spec fn inner(self) -> Option<T> {
        self
    }

    fn inner_is<F: FnOnce(T) -> bool>(self, predicate: F) -> (r: bool) {
        match self {
            Some(value) => predicate(value),
            None => false,
        }
    }
}

impl<T, E> InnerMatches<T> for Result<T, E> {
    open spec fn inner(self) -> Option<T> {
        match self {
            Ok(value) => Some(value),
            Err(_) => None,
        }
    }

    fn inner_is<F: FnOnce(T) -> bool>(self, predicate: F) -> (r: bool) {
        match self {
            Ok(value) => predicate(value),
            Err(_) => false,
        }
    }
}

} // verus!
