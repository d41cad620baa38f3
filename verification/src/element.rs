use vstd::prelude::*;
use vstd::string::*;
use crate::geom::{Point, Loc, collinear, collinear_spec, point_in_range, loc_in_range};
use crate::unicode::{str_width, str_width_of};
use crate::text::str_eq;

verus! {

/// How a line or arc is drawn.
#[derive(Debug, Clone, Copy, PartialEq, Eq, Structural)]
pub enum Stroke {
    Solid,
    Dashed,
}

/// An end decoration of a line or arc, rendered as an SVG marker.
#[derive(Debug, Clone, Copy, PartialEq, Eq, Structural)]
pub enum Feature {
    Arrow,
    ClearArrow,
    Circle,
    Square,
    OpenCircle,
    BigOpenCircle,
    Nothing,
}

/// Which of the two arcs between two points is drawn.
#[derive(Debug, Clone, Copy, PartialEq, Eq, Structural)]
pub enum ArcFlag {
    Major,
    Minor,
}

/// The marker reference a feature renders as, if any.
pub open spec fn marker_of(f: Feature) -> Option<Seq<char>> {
    match f {
        Feature::Nothing => None,
        Feature::Arrow => Some("url(#triangle)"@),
        Feature::ClearArrow => Some("url(#clear_triangle)"@),
        Feature::Circle => Some("url(#circle)"@),
        Feature::Square => Some("url(#square)"@),
        Feature::OpenCircle => Some("url(#open_circle)"@),
        Feature::BigOpenCircle => Some("url(#big_open_circle)"@),
    }
}

impl Feature {
    /// The `url(#..)` marker reference this feature renders as; `Nothing`
    /// renders none.
    pub fn get_marker(&self) -> (r: Option<&str>)
        ensures
            r is Some <==> marker_of(*self) is Some,
            r matches Some(s) ==> marker_of(*self) matches Some(m) && s@ == m,
    {
        match *self {
            Feature::Nothing => None,
            Feature::Arrow => Some("url(#triangle)"),
            Feature::ClearArrow => Some("url(#clear_triangle)"),
            Feature::Circle => Some("url(#circle)"),
            Feature::Square => Some("url(#square)"),
            Feature::OpenCircle => Some("url(#open_circle)"),
            Feature::BigOpenCircle => Some("url(#big_open_circle)"),
        }
    }
}

/// A drawing primitive with concrete coordinates, ready for SVG emission.
/// Lengths are in eighths of a cell (see `geom::Point`); a circle or arc
/// radius is likewise in eighths of a cell.
#[derive(Debug)]
pub enum Element {
    Circle(Point, u32),
    Line(Point, Point, Stroke, Feature, Feature),
    Arc(Point, Point, u32, ArcFlag, bool, Stroke, Feature, Feature),
    Text(Loc, String),
}

/// The mathematical model of an `Element`: text as a character sequence.
pub enum ElemV {
    Circle { center: Point, radius: int },
    Line { s: Point, e: Point, stroke: Stroke, sf: Feature, ef: Feature },
    Arc {
        s: Point,
        e: Point,
        radius: int,
        flag: ArcFlag,
        sweep: bool,
        stroke: Stroke,
        sf: Feature,
        ef: Feature,
    },
    Text { loc: Loc, text: Seq<char> },
}

impl View for Element {
    type V = ElemV;

    open spec fn view(&self) -> ElemV {
        match *self {
            Element::Circle(c, r) => ElemV::Circle { center: c, radius: r as int },
            Element::Line(s, e, stroke, sf, ef) => ElemV::Line { s, e, stroke, sf, ef },
            Element::Arc(s, e, r, flag, sweep, stroke, sf, ef) => ElemV::Arc {
                s,
                e,
                radius: r as int,
                flag,
                sweep,
                stroke,
                sf,
                ef,
            },
            Element::Text(loc, ref t) => ElemV::Text { loc, text: t@ },
        }
    }
}

/// Every coordinate of the element stays in the range where geometric
/// arithmetic is exact.
pub open spec fn wf_elem(e: ElemV) -> bool {
    match e {
        ElemV::Circle { center, radius } => point_in_range(center),
        ElemV::Line { s, e, .. } => point_in_range(s) && point_in_range(e),
        ElemV::Arc { s, e, .. } => point_in_range(s) && point_in_range(e),
        ElemV::Text { loc, .. } => loc_in_range(loc),
    }
}

impl PartialEq for Element {
    fn eq(&self, other: &Element) -> bool {
        match (self, other) {
            (Element::Circle(c1, r1), Element::Circle(c2, r2)) => c1 == c2 && r1 == r2,
            (Element::Line(s1, e1, st1, a1, b1), Element::Line(s2, e2, st2, a2, b2)) => s1 == s2
                && e1 == e2 && st1 == st2 && a1 == a2 && b1 == b2,
            (
                Element::Arc(s1, e1, r1, f1, w1, st1, a1, b1),
                Element::Arc(s2, e2, r2, f2, w2, st2, a2, b2),
            ) => s1 == s2 && e1 == e2 && r1 == r2 && f1 == f2 && w1 == w2 && st1 == st2 && a1 == a2
                && b1 == b2,
            (Element::Text(l1, t1), Element::Text(l2, t2)) => l1 == l2 && str_eq(
                t1.as_str(),
                t2.as_str(),
            ),
            _ => false,
        }
    }
}

impl vstd::std_specs::cmp::PartialEqSpecImpl for Element {
    open spec fn obeys_eq_spec() -> bool {
        true
    }

    open spec fn eq_spec(&self, other: &Element) -> bool {
        self@ == other@
    }
}

impl Eq for Element {

}

impl Clone for Element {
    fn clone(&self) -> (r: Self)
        ensures
            r@ == self@,
    {
        match self {
            Element::Circle(c, r) => Element::Circle(*c, *r),
            Element::Line(s, e, stroke, sf, ef) => Element::Line(*s, *e, *stroke, *sf, *ef),
            Element::Arc(s, e, r, flag, sweep, stroke, sf, ef) => Element::Arc(
                *s,
                *e,
                *r,
                *flag,
                *sweep,
                *stroke,
                *sf,
                *ef,
            ),
            Element::Text(loc, t) => Element::Text(*loc, String::from_str(t.as_str())),
        }
    }
}

pub fn line(a: &Point, b: &Point) -> (r: Element)
    ensures
        r@ == (ElemV::Line {
            s: *a,
            e: *b,
            stroke: Stroke::Solid,
            sf: Feature::Nothing,
            ef: Feature::Nothing,
        }),
{
    Element::Line(*a, *b, Stroke::Solid, Feature::Nothing, Feature::Nothing)
}

pub fn dashed_line(a: &Point, b: &Point) -> (r: Element)
    ensures
        r@ == (ElemV::Line {
            s: *a,
            e: *b,
            stroke: Stroke::Dashed,
            sf: Feature::Nothing,
            ef: Feature::Nothing,
        }),
{
    Element::Line(*a, *b, Stroke::Dashed, Feature::Nothing, Feature::Nothing)
}

pub fn circle_start_line(a: &Point, b: &Point) -> (r: Element)
    ensures
        r@ == (ElemV::Line {
            s: *a,
            e: *b,
            stroke: Stroke::Solid,
            sf: Feature::Circle,
            ef: Feature::Nothing,
        }),
{
    Element::Line(*a, *b, Stroke::Solid, Feature::Circle, Feature::Nothing)
}

pub fn square_start_line(a: &Point, b: &Point) -> (r: Element)
    ensures
        r@ == (ElemV::Line {
            s: *a,
            e: *b,
            stroke: Stroke::Solid,
            sf: Feature::Square,
            ef: Feature::Nothing,
        }),
{
    Element::Line(*a, *b, Stroke::Solid, Feature::Square, Feature::Nothing)
}

pub fn circle_open_line(a: &Point, b: &Point) -> (r: Element)
    ensures
        r@ == (ElemV::Line {
            s: *a,
            e: *b,
            stroke: Stroke::Solid,
            sf: Feature::OpenCircle,
            ef: Feature::Nothing,
        }),
{
    Element::Line(*a, *b, Stroke::Solid, Feature::OpenCircle, Feature::Nothing)
}

pub fn big_circle_open_line(a: &Point, b: &Point) -> (r: Element)
    ensures
        r@ == (ElemV::Line {
            s: *a,
            e: *b,
            stroke: Stroke::Solid,
            sf: Feature::BigOpenCircle,
            ef: Feature::Nothing,
        }),
{
    Element::Line(*a, *b, Stroke::Solid, Feature::BigOpenCircle, Feature::Nothing)
}

pub fn arrow_line(s: &Point, e: &Point) -> (r: Element)
    ensures
        r@ == (ElemV::Line {
            s: *s,
            e: *e,
            stroke: Stroke::Solid,
            sf: Feature::Nothing,
            ef: Feature::Arrow,
        }),
{
    Element::Line(*s, *e, Stroke::Solid, Feature::Nothing, Feature::Arrow)
}

pub fn clear_arrow_line(s: &Point, e: &Point) -> (r: Element)
    ensures
        r@ == (ElemV::Line {
            s: *s,
            e: *e,
            stroke: Stroke::Solid,
            sf: Feature::Nothing,
            ef: Feature::ClearArrow,
        }),
{
    Element::Line(*s, *e, Stroke::Solid, Feature::Nothing, Feature::ClearArrow)
}

pub fn start_arrow_line(s: &Point, e: &Point) -> (r: Element)
    ensures
        r@ == (ElemV::Line {
            s: *s,
            e: *e,
            stroke: Stroke::Solid,
            sf: Feature::Arrow,
            ef: Feature::Nothing,
        }),
{
    Element::Line(*s, *e, Stroke::Solid, Feature::Arrow, Feature::Nothing)
}

pub fn arc(a: &Point, b: &Point, r: u32) -> (el: Element)
    ensures
        el@ == (ElemV::Arc {
            s: *a,
            e: *b,
            radius: r as int,
            flag: ArcFlag::Minor,
            sweep: false,
            stroke: Stroke::Solid,
            sf: Feature::Nothing,
            ef: Feature::Nothing,
        }),
{
    Element::Arc(
        *a,
        *b,
        r,
        ArcFlag::Minor,
        false,
        Stroke::Solid,
        Feature::Nothing,
        Feature::Nothing,
    )
}

pub fn open_circle(c: &Point, r: u32) -> (el: Element)
    ensures
        el@ == (ElemV::Circle { center: *c, radius: r as int }),
{
    Element::Circle(*c, r)
}

pub fn text(loc: &Loc, txt: String) -> (r: Element)
    ensures
        r@ == (ElemV::Text { loc: *loc, text: txt@ }),
{
    Element::Text(*loc, txt)
}

/// Whether two elements touch at an endpoint: lines and arcs share an
/// endpoint when one's start or end equals the other's start or end in the
/// matching direction.
pub open spec fn shares_endpoints_spec(a: ElemV, b: ElemV) -> bool {
    match (a, b) {
        (ElemV::Line { s, e, .. }, ElemV::Line { s: s2, e: e2, .. }) => s == s2 || e == e2 || s
            == e2 || s2 == e,
        (ElemV::Line { s, e, .. }, ElemV::Arc { s: s2, e: e2, .. }) => s == s2 || e == e2 || s == e2
            || s2 == e,
        (ElemV::Arc { s, e, .. }, ElemV::Line { s: s2, e: e2, .. }) => s == s2 || e == e2 || s == e2
            || s2 == e,
        (ElemV::Arc { s, e, .. }, ElemV::Arc { s: s2, e: e2, .. }) => s == s2 || e == e2 || s == e2
            || s2 == e,
        _ => false,
    }
}

/// The reduction of two elements into one, if any: equal elements collapse,
/// collinear lines of one stroke joined end to end merge into the longer
/// line when the joined ends carry no feature, and a text run absorbs
/// another that starts exactly where this one's display width ends.
pub open spec fn reduce_model(a: ElemV, b: ElemV) -> Option<ElemV> {
    if a == b {
        Some(b)
    } else {
        match (a, b) {
            (
                ElemV::Line { s, e, stroke, sf, ef },
                ElemV::Line { s: s2, e: e2, stroke: stroke2, sf: sf2, ef: ef2 },
            ) => {
                if collinear_spec(s, e, s2) && collinear_spec(s, e, e2) && stroke == stroke2 {
                    if e == s2 && ef == Feature::Nothing && sf2 == Feature::Nothing {
                        Some(ElemV::Line { s, e: e2, stroke, sf, ef: ef2 })
                    } else if e == e2 && ef == Feature::Nothing && ef2 == Feature::Nothing {
                        Some(ElemV::Line { s, e: s2, stroke, sf, ef: sf2 })
                    } else if s == s2 && sf == Feature::Nothing && sf2 == Feature::Nothing && ef
                        != Feature::Arrow {
                        Some(ElemV::Line { s: e, e: e2, stroke, sf: ef, ef: ef2 })
                    } else if s == e2 && sf == Feature::Nothing && ef2 == Feature::Nothing {
                        Some(ElemV::Line { s: s2, e, stroke, sf: sf2, ef })
                    } else {
                        None
                    }
                } else {
                    None
                }
            },
            (ElemV::Text { loc, text }, ElemV::Text { loc: loc2, text: text2 }) => {
                if loc.y == loc2.y && loc.x + str_width_of(text) == loc2.x {
                    Some(ElemV::Text { loc, text: text + text2 })
                } else {
                    None
                }
            },
            _ => None,
        }
    }
}

/// The model of an optional element.
pub open spec fn opt_view(o: Option<Element>) -> Option<ElemV> {
    match o {
        None => None,
        Some(e) => Some(e@),
    }
}

impl Element {
    /// Whether this element and `other` touch at an endpoint.
    pub fn shares_endpoints(&self, other: &Element) -> (r: bool)
        ensures
            r == shares_endpoints_spec(self@, other@),
    {
        match (self, other) {
            (Element::Line(s, e, _, _, _), Element::Line(s2, e2, _, _, _)) => s == s2 || e == e2
                || s == e2 || s2 == e,
            (Element::Line(s, e, _, _, _), Element::Arc(s2, e2, _, _, _, _, _, _)) => s == s2 || e
                == e2 || s == e2 || s2 == e,
            (Element::Arc(s, e, _, _, _, _, _, _), Element::Line(s2, e2, _, _, _)) => s == s2 || e
                == e2 || s == e2 || s2 == e,
            (Element::Arc(s, e, _, _, _, _, _, _), Element::Arc(s2, e2, _, _, _, _, _, _)) => s
                == s2 || e == e2 || s == e2 || s2 == e,
            _ => false,
        }
    }

    /// Try to merge `other` into this element; `None` when the pair is not
    /// reducible. The result is exactly `reduce_model` of the two.
    pub fn reduce(&self, other: &Element) -> (r: Option<Element>)
        requires
            wf_elem(self@) && wf_elem(other@),
        ensures
            opt_view(r) == reduce_model(self@, other@),
            r matches Some(e) ==> wf_elem(e@),
    {
        if self.eq(other) {
            return Some(other.clone());
        }
        match (self, other) {
            (Element::Line(s, e, stroke, sf, ef), Element::Line(s2, e2, stroke2, sf2, ef2)) => {
                if collinear(s, e, s2) && collinear(s, e, e2) && stroke == stroke2 {
                    if e == s2 && *ef == Feature::Nothing && *sf2 == Feature::Nothing {
                        Some(Element::Line(*s, *e2, *stroke, *sf, *ef2))
                    } else if e == e2 && *ef == Feature::Nothing && *ef2 == Feature::Nothing {
                        Some(Element::Line(*s, *s2, *stroke, *sf, *sf2))
                    } else if s == s2 && *sf == Feature::Nothing && *sf2 == Feature::Nothing && *ef
                        != Feature::Arrow {
                        Some(Element::Line(*e, *e2, *stroke, *ef, *ef2))
                    } else if s == e2 && *sf == Feature::Nothing && *ef2 == Feature::Nothing {
                        Some(Element::Line(*s2, *e, *stroke, *sf2, *ef))
                    } else {
                        None
                    }
                } else {
                    None
                }
            },
            (Element::Text(loc, t), Element::Text(loc2, t2)) => {
                let w: usize = str_width(t.as_str());
                if loc.y == loc2.y && loc.x as i128 + w as i128 == loc2.x as i128 {
                    let merged: String = String::from_str(t.as_str()).concat(t2.as_str());
                    Some(Element::Text(*loc, merged))
                } else {
                    None
                }
            },
            _ => None,
        }
    }
}

} // verus!
