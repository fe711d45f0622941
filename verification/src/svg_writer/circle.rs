//! A filled circle and its builder.

use vstd::prelude::*;

use crate::vec2::Vec2;

verus! {

/// A filled circle: centre, radius and fill colour.
#[derive(Clone, Debug, PartialEq)]
pub struct Circle<T> {
    /// The centre point.
    pub centre: Vec2<T>,
    /// The radius.
    pub radius: T,
    /// The fill colour.
    pub fill: String,
}

/// Collects the parts of a [`Circle`] one call at a time.
pub struct CircleBuilder<T> {
    /// The centre, once set.
    pub centre: Option<Vec2<T>>,
    /// The radius, once set.
    pub radius: Option<T>,
    /// The fill colour, once set.
    pub fill: Option<String>,
}

impl<T> Circle<T> {
    /// Starts an empty builder.
    pub fn new_builder() -> (r: CircleBuilder<T>)
        ensures
            r.centre is None,
            r.radius is None,
            r.fill is None,
    {
        CircleBuilder { centre: None, radius: None, fill: None }
    }
}

impl<T> CircleBuilder<T> {
    /// Sets the centre point.
    pub fn set_centre(self, x: T, y: T) -> (r: Self)
        ensures
            r == (CircleBuilder { centre: Some(Vec2 { x, y }), ..self }),
    {
        CircleBuilder { centre: Some(Vec2 { x, y }), ..self }
    }

    /// Sets the radius.
    pub fn set_radius(self, x: T) -> (r: Self)
        ensures
            r == (CircleBuilder { radius: Some(x), ..self }),
    {
        CircleBuilder { radius: Some(x), ..self }
    }

    /// Sets the fill colour.
    pub fn set_fill(self, fill: String) -> (r: Self)
        ensures
            r == (CircleBuilder { fill: Some(fill), ..self }),
    {
        CircleBuilder { fill: Some(fill), ..self }
    }

    /// Finishes the circle. Every part must have been set.
    pub fn finish(self) -> (r: Circle<T>)
        requires
            self.centre is Some,
            self.radius is Some,
            self.fill is Some,
        ensures
            r == (Circle {
                centre: self.centre->Some_0,
                radius: self.radius->Some_0,
                fill: self.fill->Some_0,
            }),
    {
        Circle { centre: self.centre.unwrap(), radius: self.radius.unwrap(), fill: self.fill.unwrap() }
    }
}

} // verus!
