//! A value paired with the function that renders it as CSV text.

use vstd::prelude::*;

verus! {

/// A value to be rendered as CSV, together with its renderer.
pub struct Csv<T, F>(pub T, pub F);

impl<T, F: Fn(&T) -> String> Csv<T, F> {
    /// Gives back the wrapped value.
    pub fn into_inner(self) -> (r: T)
        ensures
            r == self.0,
    {
        self.0
    }

    /// Renders the wrapped value with the stored renderer.
    pub fn convert(&self) -> (r: String)
        requires
            call_requires(self.1, (&self.0,)),
        ensures
            call_ensures(self.1, (&self.0,), r),
    {
        (self.1)(&self.0)
    }
}

} // verus!
