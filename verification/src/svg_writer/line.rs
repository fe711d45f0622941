//! A line segment and its builder.

use vstd::prelude::*;

use crate::vec2::Vec2;

verus! {

/// A straight line segment with a stroke colour and width.
#[derive(Clone, Debug, PartialEq)]
pub struct Line<T> {
    /// The start point.
    pub start: Vec2<T>,
    /// The end point.
    pub end: Vec2<T>,
    /// The stroke colour.
    pub stroke: String,
    /// The stroke width.
    pub stroke_width: T,
}

/// Collects the parts of a [`Line`] one call at a time.
pub struct LineBuilder<T> {
    /// The start point, once set.
    pub start: Option<Vec2<T>>,
    /// The end point, once set.
    pub end: Option<Vec2<T>>,
    /// The stroke colour, once set.
    pub stroke: Option<String>,
    /// The stroke width, once set.
    pub stroke_width: Option<T>,
}

impl<T> Line<T> {
    /// Starts an empty builder.
    pub fn new_builder() -> (r: LineBuilder<T>)
        ensures
            r.start is None,
            r.end is None,
            r.stroke is None,
            r.stroke_width is None,
    {
        LineBuilder { start: None, end: None, stroke: None, stroke_width: None }
    }
}

impl<T> LineBuilder<T> {
    /// Sets the start point.
    pub fn set_start(self, x: T, y: T) -> (r: Self)
        ensures
            r == (LineBuilder { start: Some(Vec2 { x, y }), ..self }),
    {
        LineBuilder { start: Some(Vec2 { x, y }), ..self }
    }

    /// Sets the end point.
    pub fn set_end(self, x: T, y: T) -> (r: Self)
        ensures
            r == (LineBuilder { end: Some(Vec2 { x, y }), ..self }),
    {
        LineBuilder { end: Some(Vec2 { x, y }), ..self }
    }

    /// Sets the stroke colour.
    pub fn set_stroke(self, stroke: String) -> (r: Self)
        ensures
            r == (LineBuilder { stroke: Some(stroke), ..self }),
    {
        LineBuilder { stroke: Some(stroke), ..self }
    }

    /// Sets the stroke width.
    pub fn set_stroke_width(self, stroke_width: T) -> (r: Self)
        ensures
            r == (LineBuilder { stroke_width: Some(stroke_width), ..self }),
    {
        LineBuilder { stroke_width: Some(stroke_width), ..self }
    }

    /// Finishes the line. Every part must have been set.
    pub fn finish(self) -> (r: Line<T>)
        requires
            self.start is Some,
            self.end is Some,
            self.stroke is Some,
            self.stroke_width is Some,
        ensures
            r == (Line {
                start: self.start->Some_0,
                end: self.end->Some_0,
                stroke: self.stroke->Some_0,
                stroke_width: self.stroke_width->Some_0,
            }),
    {
        Line {
            start: self.start.unwrap(),
            end: self.end.unwrap(),
            stroke: self.stroke.unwrap(),
            stroke_width: self.stroke_width.unwrap(),
        }
    }
}

} // verus!
