//! Element-wise activation functions.
//!
//! An activation is a stateless scalar transform applied element for element
//! by an activation layer.  The layer owns all matrix work and caching; an
//! implementation of [`Func`] only maps one scalar at a time, so a caller can
//! plug in any activation (a sigmoid, for instance) on its own scalar type.

use vstd::prelude::*;

verus! {

/// An element-wise activation function.
///
/// Each executable method is pinned to a specification-level counterpart, so
/// the activation layer's contract can state its output exactly: the
/// activation and its derivative are functions of their argument alone.
pub trait Func<T> {
    /// The activation, as specifications see it.
    spec fn spec_forward(&self, x: T) -> T;

    /// The derivative of the activation, evaluated from the activation's
    /// output, as specifications see it.
    spec fn spec_backward(&self, y: T) -> T;

    /// The activation applied to one scalar of the layer's input.
    fn forward(&self, x: T) -> (r: T)
        ensures
            r == self.spec_forward(x),
    ;

    /// The derivative of the activation, evaluated from the activation's
    /// *output* `y` (for a sigmoid: `y * (1 - y)`).
    fn backward(&self, y: T) -> (r: T)
        ensures
            r == self.spec_backward(y),
    ;
}

} // verus!
