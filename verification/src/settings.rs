//! The layout settings: page size, staff and frame measurements, hole
//! sizes, colours and the sprocket-hole pattern. All lengths are integer
//! micrometres.

use vstd::prelude::*;

use crate::music_box::LENGTH_LIMIT_UM;

verus! {

/// The flat set of values that control the layout of one conversion run.
/// Loaded once and read-only during layout.
#[derive(Clone, Debug)]
pub struct Settings {
    /// The usable page width.
    pub paper_size_x_um: u64,
    /// The offset of the staff from the page edges.
    pub staff_offset_um: u64,
    /// The thickness of a note line.
    pub staff_line_thickness_um: u64,
    /// The colour of the note lines.
    pub staff_line_colour: String,
    /// The thickness of the bounding frame.
    pub staff_bounding_box_thickness_um: u64,
    /// How far above and below the outermost note lines the frame sits.
    pub staff_bounding_box_top_bottom_distance_um: u64,
    /// The colour of the frame's top and bottom edges.
    pub staff_bounding_box_top_bottom_colour: String,
    /// The colour of the frame's left and right edges.
    pub staff_bounding_box_left_right_colour: String,
    /// The radius of a note hole.
    pub hole_radius_um: u64,
    /// The fill colour of the holes.
    pub hole_colour: String,
    /// Whether to draw the periodic sprocket-hole pattern.
    pub sprocket_hole_enable: bool,
    /// The period of the sprocket-hole pattern.
    pub sprocket_hole_distance_um: u64,
    /// How far outside the staff the two sprocket-hole rows sit.
    pub sprocket_hole_distance_staff_um: u64,
    /// The colour of the sprocket holes.
    pub sprocket_hole_colour: String,
}

impl Settings {
    /// Well-formed settings: every length bounded, and a positive sprocket
    /// period whenever the pattern is enabled (the period divides a width).
    pub open spec fn wf(&self) -> bool {
        &&& self.paper_size_x_um <= LENGTH_LIMIT_UM
        &&& self.staff_offset_um <= LENGTH_LIMIT_UM
        &&& self.staff_line_thickness_um <= LENGTH_LIMIT_UM
        &&& self.staff_bounding_box_thickness_um <= LENGTH_LIMIT_UM
        &&& self.staff_bounding_box_top_bottom_distance_um <= LENGTH_LIMIT_UM
        &&& self.hole_radius_um <= LENGTH_LIMIT_UM
        &&& self.sprocket_hole_distance_um <= LENGTH_LIMIT_UM
        &&& self.sprocket_hole_distance_staff_um <= LENGTH_LIMIT_UM
        &&& (self.sprocket_hole_enable ==> self.sprocket_hole_distance_um >= 1)
    }
}

} // verus!
