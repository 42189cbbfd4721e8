//! Handling of secret values.
//!
//! This module provides a `Secret<T>` so that sensitive values are kept apart
//! from ordinary ones and are only reached through [`Secret::declassify`].

use vstd::prelude::*;

verus! {

/// A wrapper for sensitive values.
///
/// Its `Debug` form is derived and shows the wrapped value; a redacted
/// `Debug` form is not expressible here and is left to the code around the
/// library.
#[derive(Clone, Debug, Eq, Hash, PartialEq)]
pub struct Secret<T>(T);

impl<T> Secret<T> {
    /// The wrapped value.
    pub closed spec fn value(self) -> T {
        self.0
    }

    /// The secret that wraps `inner`.
    pub closed spec fn wrap(inner: T) -> Secret<T> {
        Secret(inner)
    }

    /// Wrapping and then reading back gives the wrapped value.
    pub broadcast proof fn lemma_wrap_value(inner: T)
        ensures
            #[trigger] Secret::wrap(inner).value() == inner,
    {
    }

    /// Create a new secret.
    pub fn new(inner: T) -> (r: Secret<T>)
        ensures
            r == Secret::wrap(inner),
            r.value() == inner,
    {
        Secret(inner)
    }

    /// Expose the inner secret.
    pub fn declassify(&self) -> (r: &T)
        ensures
            *r == self.value(),
    {
        &self.0
    }
}

impl<T> From<T> for Secret<T> {
    fn from(value: T) -> (r: Secret<T>) {
        Secret::new(value)
    }
}

impl<T> vstd::std_specs::convert::FromSpecImpl<T> for Secret<T> {
    open spec fn obeys_from_spec() -> bool {
        true
    }

    open spec fn from_spec(v: T) -> Secret<T> {
        Secret::wrap(v)
    }
}

} // verus!
