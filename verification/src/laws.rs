use vstd::prelude::*;
use crate::geom::{Loc, Point, on_segment, collinear_spec};
use crate::grid::{GridV, char_at, grid_cols};
use crate::element::{ElemV, reduce_model};
use crate::focus::{
    FragV, cell_fragments_spec, cell_elems_spec, used_as_text_spec, intended_from_spec,
    props_from_spec, is_blank_spec,
};
use crate::properties::has_characteristic_spec;
use crate::passes::{
    circle_upto, enhance_upto, percell_upto, percell_contribution, circle_pass_spec,
    enhance_pass_spec, percell_pass_spec, all_elements_spec, row_len,
};
use crate::reducer::{reduce_fix, find_from};

verus! {

/// A cell consumed by an enhancement pass contributes nothing in the
/// per-cell pass: the consumed set is disjoint from per-cell emissions.
pub proof fn lemma_consumed_cell_emits_nothing(g: GridV, cons: Seq<Loc>, l: Loc)
    requires
        cons.contains(l),
    ensures
        percell_contribution(g, cons, l.x as int, l.y as int) =~= Seq::<ElemV>::empty(),
{
}

/// Locations consumed before an enhancement pass stay consumed through it,
/// so a cell claimed by the circle pass is still skipped at per-cell time.
pub proof fn lemma_enhance_keeps_consumed(g: GridV, init: Seq<Loc>, y: int, x: int, l: Loc)
    requires
        init.contains(l),
    ensures
        enhance_upto(g, init, y, x).1.contains(l),
    decreases y, x,
{
    if y <= 0 && x <= 0 {
    } else if x <= 0 {
        lemma_enhance_keeps_consumed(g, init, y - 1, row_len(g, y - 1), l);
    } else {
        lemma_enhance_keeps_consumed(g, init, y, x - 1, l);
        let prev = enhance_upto(g, init, y, x - 1);
        let cons = prev.1;
        let i = choose|i: int| 0 <= i < cons.len() && cons[i] == l;
        match crate::passes::enhance_match_spec(g, x - 1, y) {
            None => {},
            Some((frags, locs)) => {
                assert((cons + locs)[i] == l);
            },
        }
    }
}

/// Intended behaviours of a cell used as text never fire.
proof fn lemma_intended_empty_when_text(g: GridV, x: int, y: int, k: int)
    requires
        used_as_text_spec(g, x, y),
    ensures
        intended_from_spec(g, x, y, k) =~= Seq::empty(),
    decreases 8 - k,
{
    if k < 0 || k >= 8 {
    } else {
        lemma_intended_empty_when_text(g, x, y, k + 1);
    }
}

/// Default properties of a cell used as text never fire.
proof fn lemma_props_empty_when_text(g: GridV, x: int, y: int, k: int)
    requires
        used_as_text_spec(g, x, y),
    ensures
        props_from_spec(g, x, y, k) =~= Seq::empty(),
    decreases 8 - k,
{
    if k < 0 || k >= 8 {
    } else {
        lemma_props_empty_when_text(g, x, y, k + 1);
    }
}

/// A cell used as text emits nothing but its text run: every fragment of
/// its per-cell emission is a `Text` fragment.
pub proof fn lemma_used_as_text_only_text(g: GridV, x: int, y: int)
    requires
        used_as_text_spec(g, x, y),
    ensures
        forall|i: int|
            0 <= i < cell_fragments_spec(g, x, y).len() ==> (#[trigger] cell_fragments_spec(
                g,
                x,
                y,
            )[i]) matches FragV::T(_),
{
    lemma_intended_empty_when_text(g, x, y, 0);
    lemma_props_empty_when_text(g, x, y, 0);
}

/// The grid with no rows yields no elements at all.
pub proof fn lemma_empty_grid_no_elements(g: GridV)
    requires
        g.len() == 0,
    ensures
        all_elements_spec(g) =~= Seq::<ElemV>::empty(),
        reduce_fix(all_elements_spec(g)) =~= Seq::<ElemV>::empty(),
        grid_cols(g) == 0,
{
    assert(circle_pass_spec(g) == circle_upto(g, 0, 0));
    assert(enhance_pass_spec(g, circle_pass_spec(g).1) == enhance_upto(
        g,
        circle_pass_spec(g).1,
        0,
        0,
    ));
    assert(percell_pass_spec(g, enhance_pass_spec(g, circle_pass_spec(g).1).1) == percell_upto(
        g,
        enhance_pass_spec(g, circle_pass_spec(g).1).1,
        0,
        0,
    ));
    let e = all_elements_spec(g);
    assert(e =~= Seq::<ElemV>::empty());
    assert(find_from(e, 0, 0) is None);
    assert(reduce_fix(e) == e);
}

/// Neither enhancement pass matches anywhere on a grid without its anchor
/// characters, so it emits nothing and consumes nothing new.
proof fn lemma_circle_pass_empty(g: GridV, y: int, x: int)
    requires
        forall|cx: int, cy: int| #[trigger] char_at(g, cx, cy) != '(',
    ensures
        circle_upto(g, y, x) == (Seq::<ElemV>::empty(), Seq::<Loc>::empty()),
    decreases y, x,
{
    if y <= 0 && x <= 0 {
    } else if x <= 0 {
        lemma_circle_pass_empty(g, y - 1, row_len(g, y - 1));
    } else {
        lemma_circle_pass_empty(g, y, x - 1);
    }
}

/// As `lemma_circle_pass_empty`, for the general enhancement pass.
proof fn lemma_enhance_pass_empty(g: GridV, init: Seq<Loc>, y: int, x: int)
    requires
        forall|cx: int, cy: int|
            #[trigger] char_at(g, cx, cy) != '>' && char_at(g, cx, cy) != '<' && char_at(
                g,
                cx,
                cy,
            ) != '^' && char_at(g, cx, cy) != '-' && char_at(g, cx, cy) != '.',
    ensures
        enhance_upto(g, init, y, x).0 == Seq::<ElemV>::empty(),
        enhance_upto(g, init, y, x).1 == init,
    decreases y, x,
{
    if y <= 0 && x <= 0 {
    } else if x <= 0 {
        lemma_enhance_pass_empty(g, init, y - 1, row_len(g, y - 1));
    } else {
        lemma_enhance_pass_empty(g, init, y, x - 1);
    }
}

/// A blank cell emits nothing in the per-cell pass.
proof fn lemma_blank_cell_empty(g: GridV, x: int, y: int)
    requires
        is_blank_spec(char_at(g, x, y)),
    ensures
        cell_elems_spec(g, x, y) =~= Seq::<ElemV>::empty(),
{
    assert(!has_characteristic_spec(char_at(g, x, y)));
}

/// The per-cell pass over an all-blank grid emits nothing.
proof fn lemma_percell_blank_empty(g: GridV, cons: Seq<Loc>, y: int, x: int)
    requires
        forall|cx: int, cy: int| is_blank_spec(#[trigger] char_at(g, cx, cy)),
    ensures
        percell_upto(g, cons, y, x) =~= Seq::<ElemV>::empty(),
    decreases y, x,
{
    if y <= 0 && x <= 0 {
    } else if x <= 0 {
        lemma_percell_blank_empty(g, cons, y - 1, row_len(g, y - 1));
    } else {
        lemma_percell_blank_empty(g, cons, y, x - 1);
        lemma_blank_cell_empty(g, x - 1, y);
    }
}

/// A grid of only blank cells yields no elements: no line, arc, circle or
/// text is drawn.
pub proof fn lemma_blank_grid_no_elements(g: GridV)
    requires
        forall|cx: int, cy: int| is_blank_spec(#[trigger] char_at(g, cx, cy)),
    ensures
        all_elements_spec(g) =~= Seq::<ElemV>::empty(),
        reduce_fix(all_elements_spec(g)) =~= Seq::<ElemV>::empty(),
{
    assert forall|cx: int, cy: int| #[trigger] char_at(g, cx, cy) != '(' by {
        assert(is_blank_spec(char_at(g, cx, cy)));
    }
    assert forall|cx: int, cy: int|
        #[trigger] char_at(g, cx, cy) != '>' && char_at(g, cx, cy) != '<' && char_at(g, cx, cy)
            != '^' && char_at(g, cx, cy) != '-' && char_at(g, cx, cy) != '.' by {
        assert(is_blank_spec(char_at(g, cx, cy)));
    }
    lemma_circle_pass_empty(g, g.len() as int, 0);
    let c1 = circle_pass_spec(g).1;
    lemma_enhance_pass_empty(g, c1, g.len() as int, 0);
    let c2 = enhance_pass_spec(g, c1).1;
    lemma_percell_blank_empty(g, c2, g.len() as int, 0);
    let e = all_elements_spec(g);
    assert(e =~= Seq::<ElemV>::empty());
    assert(find_from(e, 0, 0) is None);
    assert(reduce_fix(e) == e);
}

/// The per-cell pass over a grid of blank cells and plain text characters
/// (no table entry, and none of the pass anchors) yields only text runs.
proof fn lemma_percell_text_only(g: GridV, cons: Seq<Loc>, y: int, x: int)
    requires
        forall|cx: int, cy: int|
            is_blank_spec(#[trigger] char_at(g, cx, cy)) || !has_characteristic_spec(
                char_at(g, cx, cy),
            ),
    ensures
        forall|i: int|
            0 <= i < percell_upto(g, cons, y, x).len() ==> (#[trigger] percell_upto(
                g,
                cons,
                y,
                x,
            )[i]) matches ElemV::Text { .. },
    decreases y, x,
{
    if y <= 0 && x <= 0 {
    } else if x <= 0 {
        lemma_percell_text_only(g, cons, y - 1, row_len(g, y - 1));
    } else {
        lemma_percell_text_only(g, cons, y, x - 1);
        assert(is_blank_spec(char_at(g, x - 1, y)) || !has_characteristic_spec(
            char_at(g, x - 1, y),
        ));
        let piece = percell_contribution(g, cons, x - 1, y);
        assert forall|i: int| 0 <= i < piece.len() implies (#[trigger] piece[i]) matches ElemV::Text {
            ..
        } by {
            assert(piece[i] == cell_elems_spec(g, x - 1, y)[i]);
        }
        let whole = percell_upto(g, cons, y, x);
        let prev = percell_upto(g, cons, y, x - 1);
        assert forall|i: int| 0 <= i < whole.len() implies (#[trigger] whole[i]) matches ElemV::Text {
            ..
        } by {
            if i < prev.len() {
                assert(whole[i] == prev[i]);
            } else {
                assert(whole[i] == piece[i - prev.len()]);
            }
        }
    }
}

/// A grid of blank cells and plain text characters (letters and digits
/// without a table entry) yields only text elements.
pub proof fn lemma_text_grid_only_text(g: GridV)
    requires
        forall|cx: int, cy: int|
            is_blank_spec(#[trigger] char_at(g, cx, cy)) || (!has_characteristic_spec(
                char_at(g, cx, cy),
            ) && char_at(g, cx, cy) != '(' && char_at(g, cx, cy) != '>' && char_at(g, cx, cy)
                != '<'),
    ensures
        forall|i: int|
            0 <= i < all_elements_spec(g).len() ==> (#[trigger] all_elements_spec(g)[i]) matches
                ElemV::Text { .. },
{
    assert forall|cx: int, cy: int| #[trigger] char_at(g, cx, cy) != '(' by {
        assert(is_blank_spec(char_at(g, cx, cy)) || !has_characteristic_spec(char_at(g, cx, cy)));
    }
    assert forall|cx: int, cy: int|
        #[trigger] char_at(g, cx, cy) != '>' && char_at(g, cx, cy) != '<' && char_at(g, cx, cy)
            != '^' && char_at(g, cx, cy) != '-' && char_at(g, cx, cy) != '.' by {
        assert(is_blank_spec(char_at(g, cx, cy)) || !has_characteristic_spec(char_at(g, cx, cy)));
        assert(has_characteristic_spec('>') && has_characteristic_spec('<')
            && has_characteristic_spec('^') && has_characteristic_spec('-')
            && has_characteristic_spec('.'));
    }
    lemma_circle_pass_empty(g, g.len() as int, 0);
    let c1 = circle_pass_spec(g).1;
    lemma_enhance_pass_empty(g, c1, g.len() as int, 0);
    let c2 = enhance_pass_spec(g, c1).1;
    lemma_percell_text_only(g, c2, g.len() as int, 0);
    let e1 = circle_pass_spec(g).0;
    let e2 = enhance_pass_spec(g, c1).0;
    let e3 = percell_pass_spec(g, c2);
    let whole = all_elements_spec(g);
    assert(e1.len() == 0 && e2.len() == 0);
    assert forall|i: int| 0 <= i < whole.len() implies (#[trigger] whole[i]) matches ElemV::Text { .. } by {
        assert(whole == e1 + e2 + e3);
        assert(whole[i] == e3[i - e1.len() - e2.len()]);
    }
}

/// Scaling the settings by `k` multiplies every rendered coordinate
/// numerator by `k`: a point at `u` eighth-cells renders at numerator
/// `u * px`, and with the cell size multiplied by `k` that numerator is
/// exactly `k` times the original, as is the document width and height.
pub proof fn lemma_scale_coordinates(u: int, px: int, k: int)
    ensures
        u * (k * px) == k * (u * px),
{
    assert(u * (k * px) == k * (u * px)) by (nonlinear_arith);
}


/// Segments are unordered: lying on one is independent of its orientation.
proof fn lemma_on_segment_sym(p: Point, a: Point, b: Point)
    ensures
        on_segment(p, a, b) == on_segment(p, b, a),
{
    assert(collinear_spec(a, b, p) == collinear_spec(b, a, p)) by (nonlinear_arith);
}

/// The endpoint the two lines of a reducible pair share: the joint their
/// merged line grows over, following the same case order as `reduce_model`.
pub open spec fn line_merge_joint(a: ElemV, b: ElemV) -> Point {
    match (a, b) {
        (
            ElemV::Line { s: s1, e: e1, sf, ef, .. },
            ElemV::Line { s: s2, e: e2, sf: sf2, ef: ef2, .. },
        ) => {
            if e1 == s2 && ef == crate::element::Feature::Nothing && sf2
                == crate::element::Feature::Nothing {
                e1
            } else if e1 == e2 && ef == crate::element::Feature::Nothing && ef2
                == crate::element::Feature::Nothing {
                e1
            } else {
                s1
            }
        },
        _ => (Point { x: 0, y: 0 }),
    }
}

/// Reducing two joined lines preserves geometry: when the joint lies on
/// the merged segment, the merged segment's points are exactly the union
/// of the two originals' points. A pair whose second line doubles back
/// over the first leaves the joint outside the merged segment, and there
/// merging discards the overhang: the proviso excludes exactly those.
pub proof fn lemma_line_reduction_preserves_geometry(a: ElemV, b: ElemV, p: Point)
    requires
        a != b,
        a matches ElemV::Line { .. },
        b matches ElemV::Line { .. },
        reduce_model(a, b) matches Some(m) && m matches ElemV::Line { .. },
        ({
            let m = reduce_model(a, b).unwrap();
            match m {
                ElemV::Line { s: ms, e: me, .. } => on_segment(line_merge_joint(a, b), ms, me),
                _ => false,
            }
        }),
    ensures
        ({
            let m = reduce_model(a, b).unwrap();
            match (a, b, m) {
                (
                    ElemV::Line { s: s1, e: e1, .. },
                    ElemV::Line { s: s2, e: e2, .. },
                    ElemV::Line { s: ms, e: me, .. },
                ) => on_segment(p, ms, me) <==> (on_segment(p, s1, e1) || on_segment(p, s2, e2)),
                _ => true,
            }
        }),
{
    let m = reduce_model(a, b).unwrap();
    match (a, b) {
        (
            ElemV::Line { s: s1, e: e1, sf, ef, .. },
            ElemV::Line { s: s2, e: e2, sf: sf2, ef: ef2, .. },
        ) => {
            let nothing = crate::element::Feature::Nothing;
            assert(collinear_spec(s1, e1, s2) && collinear_spec(s1, e1, e2));
            if e1 == s2 && ef == nothing && sf2 == nothing {
                crate::geom::lemma_merge_preserves_geometry(s1, e1, e2, p);
                lemma_on_segment_sym(p, e1, e2);
                lemma_on_segment_sym(p, s2, e2);
            } else if e1 == e2 && ef == nothing && ef2 == nothing {
                crate::geom::lemma_merge_preserves_geometry(s1, e1, s2, p);
                lemma_on_segment_sym(p, e1, s2);
                lemma_on_segment_sym(p, s2, e2);
            } else if s1 == s2 && sf == nothing && sf2 == nothing && ef
                != crate::element::Feature::Arrow {
                assert(collinear_spec(e1, s1, e2)) by (nonlinear_arith)
                    requires
                        collinear_spec(s1, e1, e2),
                ;
                crate::geom::lemma_merge_preserves_geometry(e1, s1, e2, p);
                lemma_on_segment_sym(p, e1, s1);
                lemma_on_segment_sym(p, s1, e1);
                lemma_on_segment_sym(p, s2, e2);
            } else {
                assert(s1 == e2 && sf == nothing && ef2 == nothing);
                assert(collinear_spec(s2, s1, e1)) by (nonlinear_arith)
                    requires
                        collinear_spec(s1, e1, s2),
                ;
                crate::geom::lemma_merge_preserves_geometry(s2, s1, e1, p);
                lemma_on_segment_sym(p, s2, s1);
                lemma_on_segment_sym(p, s2, e2);
                lemma_on_segment_sym(p, s1, e1);
            }
        },
        _ => {},
    }
}


/// Empty input parses to the empty grid and renders as an empty document:
/// only the head, sized zero by zero, and the closing tag.
pub proof fn lemma_empty_input_empty_doc(tw: int, th: int, fs: int, sw: int, ff: Seq<char>)
    ensures
        crate::grid::grid_of(Seq::empty()) =~= Seq::<Seq<Seq<char>>>::empty(),
        crate::svg::svg_doc_spec(crate::grid::grid_of(Seq::empty()), tw, th, fs, sw, ff)
            =~= crate::svg::doc_head(0, 0, fs, sw, ff) + "</svg>"@,
{
    let g = crate::grid::grid_of(Seq::<char>::empty());
    lemma_empty_grid_no_elements(g);
    assert(crate::svg::elems_svg(reduce_fix(all_elements_spec(g)), tw, th) =~= Seq::<
        char,
    >::empty());
    assert(grid_cols(g) * tw == 0 && g.len() * th == 0);
}


/// The document's shape: it begins with the head sized to the grid — the
/// width attribute carries `cols * text_width` and the height attribute
/// `rows * text_height` — and ends with the closing root tag; between them
/// stand only the rendered elements, whose text content is escaped (see
/// `lemma_escape_safe` and `lemma_escape_amp`).
pub proof fn lemma_doc_sized_to_grid(g: GridV, tw: int, th: int, fs: int, sw: int, ff: Seq<char>)
    ensures
        ({
            let doc = crate::svg::svg_doc_spec(g, tw, th, fs, sw, ff);
            let head = crate::svg::doc_head(grid_cols(g) * tw, g.len() * th, fs, sw, ff);
            &&& doc.len() >= head.len() + "</svg>"@.len()
            &&& doc.subrange(0, head.len() as int) == head
            &&& doc.subrange(doc.len() - "</svg>"@.len(), doc.len() as int) == "</svg>"@
        }),
{
    let doc = crate::svg::svg_doc_spec(g, tw, th, fs, sw, ff);
    let head = crate::svg::doc_head(grid_cols(g) * tw, g.len() * th, fs, sw, ff);
    let body = crate::svg::elems_svg(
        crate::order::sort_spec(
            crate::reducer::reduce_fix(
                crate::order::sort_spec(all_elements_spec(g)),
            ),
        ),
        tw,
        th,
    );
    assert(doc == head + body + "</svg>"@);
    assert(doc.subrange(0, head.len() as int) =~= head);
    assert(doc.subrange(doc.len() - "</svg>"@.len(), doc.len() as int) =~= "</svg>"@);
}

} // verus!
