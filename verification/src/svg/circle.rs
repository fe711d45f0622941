//! A stroked circle and its builder.

use vstd::prelude::*;

use crate::vec2::Vec2;

verus! {

/// A circle drawn by its outline: centre, radius, stroke colour and
/// stroke width.
#[derive(Clone, Debug, PartialEq)]
pub struct Circle<T> {
    /// The centre point.
    pub centre: Vec2<T>,
    /// The radius.
    pub radius: T,
    /// The stroke colour.
    pub stroke: String,
    /// The stroke width.
    pub stroke_width: T,
}

/// Collects the parts of a [`Circle`] one call at a time.
pub struct CircleBuilder<T> {
    /// The centre, once set.
    pub centre: Option<Vec2<T>>,
    /// The radius, once set.
    pub radius: Option<T>,
    /// The stroke colour, once set.
    pub stroke: Option<String>,
    /// The stroke width, once set.
    pub stroke_width: Option<T>,
}

impl<T> Circle<T> {
    /// Builds a circle from its parts.
    pub fn new(centre: Vec2<T>, radius: T, stroke: String, stroke_width: T) -> (r: Circle<T>)
        ensures
            r == (Circle { centre, radius, stroke, stroke_width }),
    {
        Circle { centre, radius, stroke, stroke_width }
    }

    /// Starts an empty builder.
    pub fn new_builder() -> (r: CircleBuilder<T>)
        ensures
            r.centre is None,
            r.radius is None,
            r.stroke is None,
            r.stroke_width is None,
    {
        CircleBuilder { centre: None, radius: None, stroke: None, stroke_width: None }
    }
}

impl<T> CircleBuilder<T> {
    /// Sets the centre point.
    pub fn set_centre(self, x: T, y: T) -> (r: Self)
        ensures
            r == (CircleBuilder { centre: Some(Vec2 { x, y }), ..self }),
    {
        CircleBuilder { centre: Some(Vec2 { x, y }), ..self }
    }

    /// Sets the radius.
    pub fn set_radius(self, x: T) -> (r: Self)
        ensures
            r == (CircleBuilder { radius: Some(x), ..self }),
    {
        CircleBuilder { radius: Some(x), ..self }
    }

    /// Sets the stroke colour.
    pub fn set_stroke(self, stroke: String) -> (r: Self)
        ensures
            r == (CircleBuilder { stroke: Some(stroke), ..self }),
    {
        CircleBuilder { stroke: Some(stroke), ..self }
    }

    /// Sets the stroke width.
    pub fn set_stroke_width(self, stroke_width: T) -> (r: Self)
        ensures
            r == (CircleBuilder { stroke_width: Some(stroke_width), ..self }),
    {
        CircleBuilder { stroke_width: Some(stroke_width), ..self }
    }

    /// Finishes the circle. Every part must have been set.
    pub fn finish(self) -> (r: Circle<T>)
        requires
            self.centre is Some,
            self.radius is Some,
            self.stroke is Some,
            self.stroke_width is Some,
        ensures
            r == (Circle {
                centre: self.centre->Some_0,
                radius: self.radius->Some_0,
                stroke: self.stroke->Some_0,
                stroke_width: self.stroke_width->Some_0,
            }),
    {
        Circle {
            centre: self.centre.unwrap(),
            radius: self.radius.unwrap(),
            stroke: self.stroke.unwrap(),
            stroke_width: self.stroke_width.unwrap(),
        }
    }
}

} // verus!
