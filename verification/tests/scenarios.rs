use svgbob::element::{Element, Stroke, Feature, ArcFlag};
use svgbob::geom::{Loc, Point};
use svgbob::grid::Grid;
use svgbob::passes::all_elements;
use svgbob::order::sort_elements;
use svgbob::reducer::reduce_all;
use svgbob::settings::Settings;

fn elements_of(input: &str) -> Vec<Element> {
    let settings = Settings::default();
    let grid = Grid::from_str(input, &settings);
    let mut elems = all_elements(&grid);
    sort_elements(&mut elems);
    reduce_all(&mut elems);
    sort_elements(&mut elems);
    elems
}

fn solid_line(x1: i64, y1: i64, x2: i64, y2: i64) -> Element {
    Element::Line(
        Point { x: x1, y: y1 },
        Point { x: x2, y: y2 },
        Stroke::Solid,
        Feature::Nothing,
        Feature::Nothing,
    )
}

#[test]
fn three_dashes_reduce_to_one_line() {
    let elems = elements_of("---");
    assert_eq!(elems.len(), 1);
    // left-centre of column 0 to right-centre of column 2, in eighth-cells
    assert_eq!(elems[0], solid_line(0, 4, 24, 4));
}

#[test]
fn dashes_with_chevron_make_an_arrow_line() {
    let elems = elements_of("-->");
    assert_eq!(elems.len(), 1);
    assert_eq!(
        elems[0],
        Element::Line(
            Point { x: 0, y: 4 },
            Point { x: 24, y: 4 },
            Stroke::Solid,
            Feature::Nothing,
            Feature::Arrow,
        )
    );
}

#[test]
fn left_chevron_makes_a_start_arrow() {
    let elems = elements_of("<--");
    assert_eq!(elems.len(), 1);
    match &elems[0] {
        Element::Line(a, b, stroke, sf, ef) => {
            assert_eq!(*stroke, Stroke::Solid);
            let pts = [(a.x, a.y), (b.x, b.y)];
            assert!(pts.contains(&(0, 4)) && pts.contains(&(24, 4)));
            assert!(
                (*sf == Feature::Arrow && *ef == Feature::Nothing) || (*sf == Feature::Nothing
                    && *ef == Feature::Arrow)
            );
        },
        other => panic!("expected a line, got {:?}", other),
    }
}

#[test]
fn rounded_corners_make_arcs_and_lines() {
    let elems = elements_of(".-\n| \n'-");
    let arcs: Vec<&Element> = elems
        .iter()
        .filter(|e| matches!(e, Element::Arc(..)))
        .collect();
    let lines: Vec<&Element> = elems
        .iter()
        .filter(|e| matches!(e, Element::Line(..)))
        .collect();
    assert_eq!(arcs.len(), 2, "one arc per rounded corner: {:?}", elems);
    assert_eq!(lines.len(), 3, "two horizontals and one vertical: {:?}", elems);
    // the top-left corner arc joins the right edge of its cell
    assert!(elems.iter().any(|e| match e {
        Element::Arc(a, b, r, flag, sweep, stroke, _, _) => {
            *a == Point { x: 8, y: 4 } && *b == Point { x: 4, y: 8 } && *r == 4
                && *flag == ArcFlag::Minor && !*sweep && *stroke == Stroke::Solid
        },
        _ => false,
    }));
    // the vertical runs from below the top corner to above the bottom one
    assert!(elems.iter().any(|e| *e == solid_line(4, 8, 4, 16)));
}

#[test]
fn words_become_two_text_runs() {
    let elems = elements_of("hello world");
    assert_eq!(elems.len(), 2, "{:?}", elems);
    match &elems[0] {
        Element::Text(loc, s) => {
            assert_eq!(*loc, Loc { x: 0, y: 0 });
            assert_eq!(s, "hello");
        },
        other => panic!("expected text, got {:?}", other),
    }
    match &elems[1] {
        Element::Text(loc, s) => {
            assert_eq!(*loc, Loc { x: 6, y: 0 });
            assert_eq!(s, "world");
        },
        other => panic!("expected text, got {:?}", other),
    }
}

#[test]
fn parens_become_one_open_circle() {
    let elems = elements_of("( )");
    assert_eq!(elems.len(), 1, "{:?}", elems);
    match &elems[0] {
        Element::Circle(center, r) => {
            // centred between the parens: the middle cell's centre
            assert_eq!(*center, Point { x: 12, y: 4 });
            assert_eq!(*r, 8);
        },
        other => panic!("expected a circle, got {:?}", other),
    }
}

#[test]
fn adjacent_parens_become_a_small_circle() {
    let elems = elements_of("()");
    assert_eq!(elems.len(), 1, "{:?}", elems);
    match &elems[0] {
        Element::Circle(center, r) => {
            assert_eq!(*center, Point { x: 8, y: 4 });
            assert_eq!(*r, 4);
        },
        other => panic!("expected a circle, got {:?}", other),
    }
}

#[test]
fn box_reduces_to_four_lines() {
    let elems = elements_of("+-+\n| |\n+-+");
    assert_eq!(elems.len(), 4, "{:?}", elems);
    let mut expect = vec![
        solid_line(4, 4, 20, 4),
        solid_line(4, 4, 4, 20),
        solid_line(20, 4, 20, 20),
        solid_line(4, 20, 20, 20),
    ];
    for e in &elems {
        let mut found = None;
        for (i, w) in expect.iter().enumerate() {
            if normalise(e) == normalise(w) {
                found = Some(i);
                break;
            }
        }
        let i = found.unwrap_or_else(|| panic!("unexpected element {:?}", e));
        expect.remove(i);
    }
    assert!(expect.is_empty());
}

fn normalise(e: &Element) -> Element {
    match e {
        Element::Line(a, b, stroke, sf, ef) => {
            if (a.y, a.x) <= (b.y, b.x) {
                e.clone()
            } else {
                Element::Line(*b, *a, *stroke, *ef, *sf)
            }
        },
        other => other.clone(),
    }
}

#[test]
fn double_chevron_makes_a_clear_arrow() {
    let elems = elements_of("->>");
    assert_eq!(elems.len(), 1, "{:?}", elems);
    assert_eq!(
        elems[0],
        Element::Line(
            Point { x: 0, y: 4 },
            Point { x: 24, y: 4 },
            Stroke::Solid,
            Feature::Nothing,
            Feature::ClearArrow,
        )
    );
}

#[test]
fn equals_make_a_dashed_line() {
    let elems = elements_of("==");
    assert_eq!(elems.len(), 1, "{:?}", elems);
    match &elems[0] {
        Element::Line(a, b, stroke, _, _) => {
            assert_eq!(*stroke, Stroke::Dashed);
            assert_eq!((a.x, a.y, b.x, b.y), (0, 4, 16, 4));
        },
        other => panic!("expected a dashed line, got {:?}", other),
    }
}

#[test]
fn vertical_bar_with_caret_makes_an_up_arrow() {
    let elems = elements_of("^\n|");
    assert_eq!(elems.len(), 1, "{:?}", elems);
    match &elems[0] {
        Element::Line(a, b, _, sf, ef) => {
            let pts = [(a.x, a.y), (b.x, b.y)];
            assert!(pts.contains(&(4, 0)) && pts.contains(&(4, 16)), "{:?}", elems);
            assert!(*sf == Feature::Arrow || *ef == Feature::Arrow);
        },
        other => panic!("expected an arrow line, got {:?}", other),
    }
}

#[test]
fn open_circle_endpoint_on_a_line() {
    let elems = elements_of("o--");
    assert_eq!(elems.len(), 1, "{:?}", elems);
    match &elems[0] {
        Element::Line(a, b, _, sf, ef) => {
            assert_eq!((a.x, a.y), (4, 4));
            assert_eq!((b.x, b.y), (24, 4));
            assert_eq!(*sf, Feature::OpenCircle);
            assert_eq!(*ef, Feature::Nothing);
        },
        other => panic!("expected a line, got {:?}", other),
    }
}

#[test]
fn dash_between_letters_stays_text() {
    let elems = elements_of("a-b");
    assert_eq!(elems.len(), 1, "{:?}", elems);
    match &elems[0] {
        Element::Text(loc, s) => {
            assert_eq!(*loc, Loc { x: 0, y: 0 });
            assert_eq!(s, "a-b");
        },
        other => panic!("expected text, got {:?}", other),
    }
}

#[test]
fn unicode_box_glyphs_draw() {
    let elems = elements_of("\u{2500}\u{2500}");
    assert_eq!(elems.len(), 1, "{:?}", elems);
    assert_eq!(elems[0], solid_line(0, 4, 16, 4));
}
