use svgbob::element::{Element, Feature, Stroke};
use svgbob::geom::Point;
use svgbob::grid::Grid;
use svgbob::passes::all_elements;
use svgbob::order::sort_elements;
use svgbob::reducer::reduce_all;
use svgbob::settings::Settings;

fn elements_of(input: &str) -> Vec<Element> {
    let settings = Settings::default();
    let grid = Grid::from_str(input, &settings);
    let mut elems = all_elements(&grid);
    sort_elements(&mut elems);
    reduce_all(&mut elems);
    sort_elements(&mut elems);
    elems
}

fn only_line(input: &str) -> (Point, Point, Stroke, Feature, Feature) {
    let elems = elements_of(input);
    assert_eq!(elems.len(), 1, "{:?}", elems);
    match &elems[0] {
        Element::Line(a, b, stroke, sf, ef) => (*a, *b, *stroke, *sf, *ef),
        other => panic!("expected a line, got {:?}", other),
    }
}

#[test]
fn vertical_bars_merge() {
    let (a, b, stroke, sf, ef) = only_line("|\n|");
    assert_eq!((a.x, a.y, b.x, b.y), (4, 0, 4, 16));
    assert_eq!(stroke, Stroke::Solid);
    assert_eq!((sf, ef), (Feature::Nothing, Feature::Nothing));
}

#[test]
fn colon_is_a_dashed_vertical() {
    let (a, b, stroke, _, _) = only_line(":");
    assert_eq!((a.x, a.y, b.x, b.y), (4, 0, 4, 8));
    assert_eq!(stroke, Stroke::Dashed);
}

#[test]
fn slashes_draw_diagonals() {
    let (a, b, _, _, _) = only_line("/");
    assert_eq!((a.x, a.y, b.x, b.y), (0, 8, 8, 0));
    let (a2, b2, _, _, _) = only_line("\\");
    assert_eq!((a2.x, a2.y, b2.x, b2.y), (0, 0, 8, 8));
}

#[test]
fn diagonal_runs_merge() {
    let (a, b, _, _, _) = only_line("\\ \n \\");
    assert_eq!((a.x, a.y, b.x, b.y), (0, 0, 16, 16));
}

#[test]
fn underscores_draw_the_baseline() {
    let (a, b, _, _, _) = only_line("__");
    assert_eq!((a.x, a.y, b.x, b.y), (0, 8, 16, 8));
}

#[test]
fn star_starts_a_filled_circle_line() {
    let (a, b, _, sf, ef) = only_line("*-");
    assert_eq!((a.x, a.y, b.x, b.y), (4, 4, 16, 4));
    assert_eq!(sf, Feature::Circle);
    assert_eq!(ef, Feature::Nothing);
}

#[test]
fn hash_starts_a_square_line() {
    let (_, _, _, sf, _) = only_line("#-");
    assert_eq!(sf, Feature::Square);
}

#[test]
fn big_o_starts_a_big_open_circle_line() {
    let (_, _, _, sf, _) = only_line("O-");
    assert_eq!(sf, Feature::BigOpenCircle);
}

#[test]
fn left_double_chevron_makes_a_clear_arrow() {
    let elems = elements_of("<<-");
    assert_eq!(elems.len(), 1, "{:?}", elems);
    match &elems[0] {
        Element::Line(a, b, _, sf, ef) => {
            let pts = [(a.x, a.y), (b.x, b.y)];
            assert!(pts.contains(&(0, 4)) && pts.contains(&(24, 4)), "{:?}", elems);
            assert!(*sf == Feature::ClearArrow || *ef == Feature::ClearArrow);
        },
        other => panic!("expected a line, got {:?}", other),
    }
}

#[test]
fn chevron_without_a_line_stays_text() {
    let elems = elements_of(">");
    assert_eq!(elems.len(), 1, "{:?}", elems);
    assert!(matches!(&elems[0], Element::Text(_, s) if s == ">"));
}

#[test]
fn tee_joints_draw_arms_and_merge_the_straight_pair() {
    let elems = elements_of("\u{251c}");
    // the up and down arms merge into one vertical; the right arm stays
    assert_eq!(elems.len(), 2, "{:?}", elems);
    assert!(elems.iter().any(|e| matches!(e,
        Element::Line(a, b, _, _, _) if (a.x, a.y, b.x, b.y) == (4, 0, 4, 8))));
    assert!(elems.iter().any(|e| matches!(e,
        Element::Line(a, b, _, _, _) if (a.x, a.y, b.x, b.y) == (4, 4, 8, 4))));
}

#[test]
fn letter_o_in_a_word_stays_text() {
    let elems = elements_of("box");
    assert_eq!(elems.len(), 1, "{:?}", elems);
    assert!(matches!(&elems[0], Element::Text(_, s) if s == "box"));
}

#[test]
fn lone_plus_stays_text() {
    let elems = elements_of("+");
    assert_eq!(elems.len(), 1, "{:?}", elems);
    assert!(matches!(&elems[0], Element::Text(_, s) if s == "+"));
}

#[test]
fn consumed_paren_cells_emit_nothing_else() {
    // the circle pass claims both parens; only the circle remains even
    // though a lone paren would have been a text cell
    let elems = elements_of("()");
    assert_eq!(elems.len(), 1, "{:?}", elems);
    assert!(matches!(&elems[0], Element::Circle(..)));
    let lone = elements_of("(");
    assert_eq!(lone.len(), 1, "{:?}", lone);
    assert!(matches!(&lone[0], Element::Text(..)));
}

#[test]
fn wider_parens_make_larger_circles() {
    let elems = elements_of("(  )");
    assert_eq!(elems.len(), 1, "{:?}", elems);
    match &elems[0] {
        Element::Circle(center, r) => {
            // centred on the boundary between the two middle cells
            assert_eq!((center.x, center.y), (16, 4));
            assert_eq!(*r, 12);
        },
        other => panic!("expected a circle, got {:?}", other),
    }
    let elems = elements_of("(   )");
    assert_eq!(elems.len(), 1, "{:?}", elems);
    match &elems[0] {
        Element::Circle(center, r) => {
            assert_eq!((center.x, center.y), (20, 4));
            assert_eq!(*r, 16);
        },
        other => panic!("expected a circle, got {:?}", other),
    }
}

#[test]
fn three_row_composition_makes_one_circle() {
    let elems = elements_of(".-.\n( )\n'-'");
    assert_eq!(elems.len(), 1, "{:?}", elems);
    match &elems[0] {
        Element::Circle(center, r) => {
            // centred on the middle cell of the middle row
            assert_eq!((center.x, center.y), (12, 12));
            assert_eq!(*r, 12);
        },
        other => panic!("expected a circle, got {:?}", other),
    }
}

#[test]
fn chevron_tips_a_diagonal() {
    let elems = elements_of("^ \n \\");
    assert_eq!(elems.len(), 1, "{:?}", elems);
    match &elems[0] {
        Element::Line(a, b, _, sf, ef) => {
            let pts = [(a.x, a.y), (b.x, b.y)];
            // the diagonal's far corner and the chevron cell's centre
            assert!(pts.contains(&(16, 16)) && pts.contains(&(4, 4)), "{:?}", elems);
            assert!(*sf == Feature::Arrow || *ef == Feature::Arrow);
        },
        other => panic!("expected an arrow line, got {:?}", other),
    }
}

#[test]
fn gapped_dashes_make_one_dashed_line() {
    let elems = elements_of("- -");
    assert_eq!(elems.len(), 1, "{:?}", elems);
    match &elems[0] {
        Element::Line(a, b, stroke, _, _) => {
            assert_eq!(*stroke, Stroke::Dashed);
            assert_eq!((a.x, a.y, b.x, b.y), (0, 4, 24, 4));
        },
        other => panic!("expected a dashed line, got {:?}", other),
    }
    let elems = elements_of("- - -");
    assert_eq!(elems.len(), 1, "{:?}", elems);
    match &elems[0] {
        Element::Line(a, b, stroke, _, _) => {
            assert_eq!(*stroke, Stroke::Dashed);
            assert_eq!((a.x, a.y, b.x, b.y), (0, 4, 40, 4));
        },
        other => panic!("expected a dashed line, got {:?}", other),
    }
}

#[test]
fn dot_closes_an_underscore_baseline() {
    let elems = elements_of("_.");
    // the underscore's baseline plus the closing quarter arc
    assert_eq!(elems.len(), 2, "{:?}", elems);
    assert!(elems.iter().any(|e| matches!(e,
        Element::Line(a, b, _, _, _) if (a.x, a.y, b.x, b.y) == (0, 8, 8, 8))));
    assert!(elems.iter().any(|e| matches!(e,
        Element::Arc(a, b, r, _, _, _, _, _)
            if (a.x, a.y, b.x, b.y, *r) == (16, 4, 8, 8, 4))));
}

#[test]
fn dash_gap_inside_words_stays_text() {
    let elems = elements_of("a- -b");
    assert!(
        elems.iter().all(|e| !matches!(e, Element::Line(_, _, Stroke::Dashed, _, _))),
        "{:?}",
        elems
    );
}
