use music_box_converter::frac::Frac;
use music_box_converter::svg::circle::Circle as StrokedCircle;
use music_box_converter::svg::document::{Document, Element};
use music_box_converter::svg_writer::circle::Circle;
use music_box_converter::svg_writer::line::Line;
use music_box_converter::vec2::Vec2;

#[test]
fn frac_holds_exact_values() {
    let f = Frac::new(5_000, 10);
    assert_eq!(f.num, 5_000);
    assert_eq!(f.den, 10);
    assert_eq!(Frac::whole(-7), Frac { num: -7, den: 1 });
}

#[test]
fn vec2_pairs_components() {
    let v = Vec2::new_val(3u64, 9u64);
    assert_eq!((v.x, v.y), (3, 9));
    let d: Vec2<u64> = Vec2::new();
    assert_eq!((d.x, d.y), (0, 0));
}

#[test]
fn line_builder_collects_every_part() {
    let line = Line::new_builder()
        .set_start(Frac::whole(1), Frac::whole(2))
        .set_end(Frac::whole(3), Frac::whole(4))
        .set_stroke(String::from("#123456"))
        .set_stroke_width(Frac::whole(5))
        .finish();
    assert_eq!(line.start.x, Frac::whole(1));
    assert_eq!(line.end.y, Frac::whole(4));
    assert_eq!(line.stroke, "#123456");
    assert_eq!(line.stroke_width, Frac::whole(5));
}

#[test]
fn filled_circle_builder_collects_every_part() {
    let circle = Circle::new_builder()
        .set_centre(Frac::whole(7), Frac::whole(8))
        .set_radius(Frac::whole(1))
        .set_fill(String::from("#ff0000"))
        .finish();
    assert_eq!(circle.centre.x, Frac::whole(7));
    assert_eq!(circle.radius, Frac::whole(1));
    assert_eq!(circle.fill, "#ff0000");
}

#[test]
fn stroked_circle_builder_collects_every_part() {
    let circle = StrokedCircle::new_builder()
        .set_centre(Frac::whole(7), Frac::whole(8))
        .set_radius(Frac::whole(2))
        .set_stroke(String::from("#00ff00"))
        .set_stroke_width(Frac::whole(1))
        .finish();
    assert_eq!(circle.centre.y, Frac::whole(8));
    assert_eq!(circle.stroke, "#00ff00");
    assert_eq!(circle.stroke_width, Frac::whole(1));
    let direct = StrokedCircle::new(
        Vec2::new_val(Frac::whole(7), Frac::whole(8)),
        Frac::whole(2),
        String::from("#00ff00"),
        Frac::whole(1),
    );
    assert_eq!(direct.radius, circle.radius);
}

#[test]
fn document_appends_in_order() {
    let mut doc = Document::default();
    assert_eq!(doc.children.len(), 0);
    let line = Line::new_builder()
        .set_start(Frac::whole(0), Frac::whole(0))
        .set_end(Frac::whole(1), Frac::whole(0))
        .set_stroke(String::from("#000000"))
        .set_stroke_width(Frac::whole(1))
        .finish();
    doc.append(Element::Line(line));
    assert_eq!(doc.children.len(), 1);
    assert!(matches!(doc.children[0], Element::Line(_)));
}
