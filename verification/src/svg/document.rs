//! A page's geometry: an ordered list of typed primitives, with an exact
//! ghost model of every coordinate.

use vstd::prelude::*;

use crate::frac::Frac;
use crate::svg_writer::circle::Circle;
use crate::svg_writer::line::Line;

verus! {

/// The ghost value of a coordinate: an exact rational, numerator over
/// denominator, in micrometres.
pub ghost struct GCoord {
    /// The numerator.
    pub num: int,
    /// The denominator.
    pub den: int,
}

/// The ghost value of one drawn primitive.
pub ghost enum GElem {
    /// A straight line segment.
    Line {
        /// Horizontal start.
        x1: GCoord,
        /// Vertical start.
        y1: GCoord,
        /// Horizontal end.
        x2: GCoord,
        /// Vertical end.
        y2: GCoord,
        /// The stroke colour.
        stroke: Seq<char>,
        /// The stroke width.
        width: GCoord,
    },
    /// A filled circle.
    Circle {
        /// Horizontal centre.
        cx: GCoord,
        /// Vertical centre.
        cy: GCoord,
        /// The radius.
        radius: GCoord,
        /// The fill colour.
        fill: Seq<char>,
    },
}

impl Frac {
    /// The coordinate this fraction stands for.
    pub open spec fn gcoord(self) -> GCoord {
        GCoord { num: self.num as int, den: self.den as int }
    }
}

/// One drawn primitive of a page.
#[derive(Clone, Debug, PartialEq)]
pub enum Element {
    /// A line segment.
    Line(Line<Frac>),
    /// A filled circle.
    Circle(Circle<Frac>),
}

impl View for Element {
    type V = GElem;

    open spec fn view(&self) -> GElem {
        match self {
            Element::Line(l) => GElem::Line {
                x1: l.start.x.gcoord(),
                y1: l.start.y.gcoord(),
                x2: l.end.x.gcoord(),
                y2: l.end.y.gcoord(),
                stroke: l.stroke@,
                width: l.stroke_width.gcoord(),
            },
            Element::Circle(c) => GElem::Circle {
                cx: c.centre.x.gcoord(),
                cy: c.centre.y.gcoord(),
                radius: c.radius.gcoord(),
                fill: c.fill@,
            },
        }
    }
}

/// One output sheet's worth of geometry, in drawing order.
#[derive(Clone, Debug, PartialEq)]
pub struct Document {
    /// The primitives, in drawing order.
    pub children: Vec<Element>,
}

impl View for Document {
    type V = Seq<GElem>;

    open spec fn view(&self) -> Seq<GElem> {
        Seq::new(self.children@.len(), |i: int| self.children@[i]@)
    }
}

impl Default for Document {
    /// An empty document.
    fn default() -> (r: Document)
        ensures
            r.children@.len() == 0,
    {
        Document { children: Vec::new() }
    }
}

impl Document {
    /// Appends one primitive at the end of the document.
    pub fn append(&mut self, child: Element)
        ensures
            final(self).children@ == old(self).children@.push(child),
            final(self)@ =~= old(self)@.push(child@),
    {
        self.children.push(child);
    }
}

} // verus!
