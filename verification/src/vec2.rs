//! A pair of values of one type, used for points and for the two scale
//! factors of the layout engine.

use vstd::prelude::*;

verus! {

/// A two-component value: a point, a size or a pair of scale factors.
#[derive(Clone, Copy, Debug, PartialEq)]
pub struct Vec2<T> {
    /// The horizontal component.
    pub x: T,
    /// The vertical component.
    pub y: T,
}

impl<T: Default> Vec2<T> {
    /// Builds a pair of default values. `Default` carries no
    /// specification, so nothing is promised of the components.
    pub fn new() -> Self {
        Vec2 { x: T::default(), y: T::default() }
    }
}

impl<T> Vec2<T> {
    /// Builds a pair from its components.
    pub fn new_val(x: T, y: T) -> (r: Vec2<T>)
        ensures
            r == (Vec2 { x, y }),
    {
        Vec2 { x, y }
    }
}

} // verus!
