use svgbob::element::Element;
use svgbob::element::Feature;
use svgbob::element::Stroke;
use svgbob::element::arrow_line;
use svgbob::element::dashed_line;
use svgbob::element::text;
use svgbob::element::open_circle;
use svgbob::geom::{Loc, Point, collinear};
use svgbob::grid::Grid;
use svgbob::focus_char::FocusChar;
use svgbob::geom::Block;
use svgbob::reducer::reduce_all;
use svgbob::settings::Settings;
use std::cmp::Ordering;

fn p(x: i64, y: i64) -> Point {
    Point { x, y }
}

#[test]
fn collinear_is_exact() {
    assert!(collinear(&p(0, 0), &p(8, 0), &p(16, 0)));
    assert!(collinear(&p(0, 0), &p(8, 8), &p(16, 16)));
    assert!(!collinear(&p(0, 0), &p(8, 0), &p(16, 1)));
}

#[test]
fn equal_lines_collapse() {
    let a = svgbob::element::line(&p(0, 4), &p(8, 4));
    let b = svgbob::element::line(&p(0, 4), &p(8, 4));
    assert_eq!(a.reduce(&b), Some(svgbob::element::line(&p(0, 4), &p(8, 4))));
}

#[test]
fn joined_lines_extend() {
    let a = svgbob::element::line(&p(0, 4), &p(8, 4));
    let b = svgbob::element::line(&p(8, 4), &p(16, 4));
    assert_eq!(a.reduce(&b), Some(svgbob::element::line(&p(0, 4), &p(16, 4))));
}

#[test]
fn non_collinear_lines_do_not_reduce() {
    let a = svgbob::element::line(&p(0, 4), &p(8, 4));
    let b = svgbob::element::line(&p(8, 4), &p(8, 12));
    assert_eq!(a.reduce(&b), None);
}

#[test]
fn arrow_is_not_erased_by_flipping() {
    // two lines out of one point; the first ends in an arrow, so flipping
    // it to merge would erase the head: the pair must not reduce
    let a = arrow_line(&p(0, 4), &p(8, 4));
    let b = svgbob::element::line(&p(0, 4), &p(8, 4));
    let c = a.reduce(&b);
    assert_eq!(c, None);
}

#[test]
fn mixed_strokes_do_not_reduce() {
    let a = svgbob::element::line(&p(0, 4), &p(8, 4));
    let b = dashed_line(&p(8, 4), &p(16, 4));
    assert_eq!(a.reduce(&b), None);
}

#[test]
fn adjacent_text_runs_merge() {
    let a = text(&Loc { x: 0, y: 0 }, String::from("he"));
    let b = text(&Loc { x: 2, y: 0 }, String::from("llo"));
    assert_eq!(a.reduce(&b), Some(text(&Loc { x: 0, y: 0 }, String::from("hello"))));
}

#[test]
fn separated_text_runs_stay_apart() {
    let a = text(&Loc { x: 0, y: 0 }, String::from("he"));
    let b = text(&Loc { x: 3, y: 0 }, String::from("llo"));
    assert_eq!(a.reduce(&b), None);
}

#[test]
fn shares_endpoints_sees_touching_lines() {
    let a = svgbob::element::line(&p(0, 4), &p(8, 4));
    let b = svgbob::element::line(&p(8, 4), &p(8, 12));
    let c = svgbob::element::line(&p(16, 4), &p(24, 4));
    assert!(a.shares_endpoints(&b));
    assert!(!a.shares_endpoints(&c));
    assert!(!a.shares_endpoints(&text(&Loc { x: 0, y: 0 }, String::from("x"))));
}

#[test]
fn get_marker_names_each_feature() {
    assert_eq!(Feature::Arrow.get_marker(), Some("url(#triangle)"));
    assert_eq!(Feature::ClearArrow.get_marker(), Some("url(#clear_triangle)"));
    assert_eq!(Feature::Circle.get_marker(), Some("url(#circle)"));
    assert_eq!(Feature::Square.get_marker(), Some("url(#square)"));
    assert_eq!(Feature::OpenCircle.get_marker(), Some("url(#open_circle)"));
    assert_eq!(Feature::BigOpenCircle.get_marker(), Some("url(#big_open_circle)"));
    assert_eq!(Feature::Nothing.get_marker(), None);
}

#[test]
fn reduction_is_idempotent_on_a_sample() {
    let mut v = vec![
        svgbob::element::line(&p(0, 4), &p(8, 4)),
        svgbob::element::line(&p(8, 4), &p(16, 4)),
        svgbob::element::line(&p(16, 4), &p(24, 4)),
        open_circle(&p(40, 4), 4),
        text(&Loc { x: 0, y: 2 }, String::from("hi")),
        text(&Loc { x: 2, y: 2 }, String::from("ho")),
    ];
    reduce_all(&mut v);
    let once: Vec<Element> = v.clone();
    reduce_all(&mut v);
    assert_eq!(v, once);
    assert_eq!(v.len(), 3);
}

#[test]
fn settings_scale_multiplies_all_numeric_knobs() {
    let mut s = Settings::default();
    s.scale(3);
    assert_eq!(s.text_width, 24);
    assert_eq!(s.text_height, 48);
    assert_eq!(s.font_size, 42);
    assert_eq!(s.stroke_width, 6);
    assert_eq!(s.font_family, "arial");
}

#[test]
fn grid_reads_cells_and_handles_wide_characters() {
    let settings = Settings::default();
    let grid = Grid::from_str("a\u{4e16}b", &settings);
    assert_eq!(grid.row_count(), 1);
    // the wide character takes two slots, the second empty
    assert_eq!(grid.col_count(0), 4);
    assert_eq!(grid.get(&Loc { x: 0, y: 0 }).map(|s| s.as_str()), Some("a"));
    assert_eq!(grid.get(&Loc { x: 1, y: 0 }).map(|s| s.as_str()), Some("\u{4e16}"));
    assert_eq!(grid.get(&Loc { x: 2, y: 0 }).map(|s| s.as_str()), Some(""));
    assert_eq!(grid.get(&Loc { x: 3, y: 0 }).map(|s| s.as_str()), Some("b"));
    assert_eq!(grid.get(&Loc { x: 4, y: 0 }), None);
    assert_eq!(grid.get(&Loc { x: 0, y: 1 }), None);
}

#[test]
fn focus_reports_neighbours_and_connections() {
    let settings = Settings::default();
    let grid = Grid::from_str("-+\n |", &settings);
    let focus = FocusChar::new(&Loc { x: 0, y: 0 }, &grid);
    assert!(focus.is('-'));
    assert!(focus.any("-=_"));
    assert!(!focus.is_blank());
    assert!(focus.can_strongly_connect(&Block::O));
    assert!(!focus.can_strongly_connect(&Block::C));
    let right = focus.right();
    assert!(right.is('+'));
    // the plus next to a dash can be made strong toward it
    assert!(right.can_be_strong_all_blocks(vec![Block::K]));
    assert!(!right.can_be_strong_all_blocks(vec![Block::A]));
    let below = right.bottom();
    assert!(below.is('|'));
    assert!(below.used_as_drawing());
    assert!(!below.used_as_text());
    let outside = focus.top();
    assert!(outside.is_null());
    assert!(outside.is_blank());
}

#[test]
fn focus_walks_by_steps() {
    let settings = Settings::default();
    let grid = Grid::from_str("abc\ndef", &settings);
    let focus = FocusChar::new(&Loc { x: 0, y: 0 }, &grid);
    assert!(focus.in_right(2).is('c'));
    assert!(focus.in_bottom(1).is('d'));
    assert!(focus.bottom_right().is('e'));
    assert!(focus.in_right(2).bottom_left().is('e'));
    assert!(focus.used_as_text());
}

#[test]
fn cmp_orders_by_kind_then_points() {
    let circle = open_circle(&p(0, 0), 4);
    let l1 = svgbob::element::line(&p(0, 4), &p(8, 4));
    let l2 = svgbob::element::line(&p(0, 8), &p(8, 8));
    let t = text(&Loc { x: 0, y: 0 }, String::from("a"));
    assert_eq!(circle.cmp(&l1), Ordering::Less);
    assert_eq!(l1.cmp(&l2), Ordering::Less);
    assert_eq!(l2.cmp(&l1), Ordering::Greater);
    assert_eq!(l1.cmp(&l1), Ordering::Equal);
    assert_eq!(l1.cmp(&t), Ordering::Less);
    let ta = text(&Loc { x: 0, y: 0 }, String::from("ab"));
    let tb = text(&Loc { x: 0, y: 0 }, String::from("b"));
    assert_eq!(ta.cmp(&tb), Ordering::Less);
    assert_eq!(t.cmp(&ta), Ordering::Less);
}
