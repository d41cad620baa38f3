use vstd::prelude::*;
use core::cmp::Ordering;
use crate::element::{Element, ElemV, Stroke, Feature, ArcFlag};
use crate::geom::PointBlock;
use crate::properties::Fragment;

verus! {

/// Rank of a stroke, in declaration order.
pub open spec fn stroke_rank(s: Stroke) -> int {
    match s {
        Stroke::Solid => 0,
        Stroke::Dashed => 1,
    }
}

/// Rank of a feature, in declaration order.
pub open spec fn feature_rank(f: Feature) -> int {
    match f {
        Feature::Arrow => 0,
        Feature::ClearArrow => 1,
        Feature::Circle => 2,
        Feature::Square => 3,
        Feature::OpenCircle => 4,
        Feature::BigOpenCircle => 5,
        Feature::Nothing => 6,
    }
}

/// Rank of an arc flag, in declaration order.
pub open spec fn flag_rank(f: ArcFlag) -> int {
    match f {
        ArcFlag::Major => 0,
        ArcFlag::Minor => 1,
    }
}

/// Rank of an element's kind.
pub open spec fn tag_rank(e: ElemV) -> int {
    match e {
        ElemV::Circle { .. } => 0,
        ElemV::Line { .. } => 1,
        ElemV::Arc { .. } => 2,
        ElemV::Text { .. } => 3,
    }
}

/// Lexicographic chaining: the first difference decides, equality falls
/// through to the rest of the key.
pub open spec fn cmp_chain(a: int, b: int, rest: int) -> int {
    if a < b {
        -1
    } else if a > b {
        1
    } else {
        rest
    }
}

/// Lexicographic comparison of character sequences.
pub open spec fn lex_cmp_chars(a: Seq<char>, b: Seq<char>) -> int
    decreases a.len(),
{
    if a.len() == 0 && b.len() == 0 {
        0
    } else if a.len() == 0 {
        -1
    } else if b.len() == 0 {
        1
    } else {
        cmp_chain(a[0] as int, b[0] as int, lex_cmp_chars(a.drop_first(), b.drop_first()))
    }
}

/// The total order on elements: by kind, then by points (`y` before `x`),
/// then by the remaining attributes; text compares lexicographically.
pub open spec fn elem_cmp_spec(a: ElemV, b: ElemV) -> int {
    cmp_chain(
        tag_rank(a),
        tag_rank(b),
        match (a, b) {
            (
                ElemV::Circle { center: c1, radius: r1 },
                ElemV::Circle { center: c2, radius: r2 },
            ) => cmp_chain(
                c1.y as int,
                c2.y as int,
                cmp_chain(c1.x as int, c2.x as int, cmp_chain(r1, r2, 0)),
            ),
            (
                ElemV::Line { s: s1, e: e1, stroke: k1, sf: f1, ef: g1 },
                ElemV::Line { s: s2, e: e2, stroke: k2, sf: f2, ef: g2 },
            ) => cmp_chain(
                s1.y as int,
                s2.y as int,
                cmp_chain(
                    s1.x as int,
                    s2.x as int,
                    cmp_chain(
                        e1.y as int,
                        e2.y as int,
                        cmp_chain(
                            e1.x as int,
                            e2.x as int,
                            cmp_chain(
                                stroke_rank(k1),
                                stroke_rank(k2),
                                cmp_chain(
                                    feature_rank(f1),
                                    feature_rank(f2),
                                    cmp_chain(feature_rank(g1), feature_rank(g2), 0),
                                ),
                            ),
                        ),
                    ),
                ),
            ),
            (
                ElemV::Arc {
                    s: s1,
                    e: e1,
                    radius: r1,
                    flag: l1,
                    sweep: w1,
                    stroke: k1,
                    sf: f1,
                    ef: g1,
                },
                ElemV::Arc {
                    s: s2,
                    e: e2,
                    radius: r2,
                    flag: l2,
                    sweep: w2,
                    stroke: k2,
                    sf: f2,
                    ef: g2,
                },
            ) => cmp_chain(
                s1.y as int,
                s2.y as int,
                cmp_chain(
                    s1.x as int,
                    s2.x as int,
                    cmp_chain(
                        e1.y as int,
                        e2.y as int,
                        cmp_chain(
                            e1.x as int,
                            e2.x as int,
                            cmp_chain(
                                r1,
                                r2,
                                cmp_chain(
                                    flag_rank(l1),
                                    flag_rank(l2),
                                    cmp_chain(
                                        if w1 {
                                            1int
                                        } else {
                                            0int
                                        },
                                        if w2 {
                                            1int
                                        } else {
                                            0int
                                        },
                                        cmp_chain(
                                            stroke_rank(k1),
                                            stroke_rank(k2),
                                            cmp_chain(
                                                feature_rank(f1),
                                                feature_rank(f2),
                                                cmp_chain(feature_rank(g1), feature_rank(g2), 0),
                                            ),
                                        ),
                                    ),
                                ),
                            ),
                        ),
                    ),
                ),
            ),
            (ElemV::Text { loc: l1, text: t1 }, ElemV::Text { loc: l2, text: t2 }) => cmp_chain(
                l1.y as int,
                l2.y as int,
                cmp_chain(l1.x as int, l2.x as int, lex_cmp_chars(t1, t2)),
            ),
            _ => 0,
        },
    )
}

/// Sequences compare equal exactly when they are equal.
pub proof fn lemma_lex_cmp_eq(a: Seq<char>, b: Seq<char>)
    ensures
        lex_cmp_chars(a, b) == 0 <==> a == b,
    decreases a.len(),
{
    if a.len() == 0 && b.len() == 0 {
        assert(a =~= b);
    } else if a.len() == 0 || b.len() == 0 {
    } else {
        lemma_lex_cmp_eq(a.drop_first(), b.drop_first());
        if lex_cmp_chars(a, b) == 0 {
            assert(a.drop_first() == b.drop_first());
            assert forall|i: int| 0 <= i < a.len() implies a[i] == b[i] by {
                if i > 0 {
                    assert(a[i] == a.drop_first()[i - 1]);
                    assert(b[i] == b.drop_first()[i - 1]);
                }
            }
            assert(a =~= b);
        } else {
            if a == b {
                assert(a.drop_first() == b.drop_first());
            }
        }
    }
}

/// Elements compare equal exactly when they are equal: ties fall back to
/// equality.
pub proof fn lemma_elem_cmp_eq(a: ElemV, b: ElemV)
    ensures
        elem_cmp_spec(a, b) == 0 <==> a == b,
{
    match (a, b) {
        (ElemV::Text { loc: l1, text: t1 }, ElemV::Text { loc: l2, text: t2 }) => {
            lemma_lex_cmp_eq(t1, t2);
        },
        _ => {},
    }
}

/// The order reverses with its arguments.
pub proof fn lemma_lex_cmp_antisym(a: Seq<char>, b: Seq<char>)
    ensures
        lex_cmp_chars(a, b) == -lex_cmp_chars(b, a),
    decreases a.len(),
{
    if a.len() > 0 && b.len() > 0 {
        lemma_lex_cmp_antisym(a.drop_first(), b.drop_first());
    }
}

/// The element order reverses with its arguments.
pub proof fn lemma_elem_cmp_antisym(a: ElemV, b: ElemV)
    ensures
        elem_cmp_spec(a, b) == -elem_cmp_spec(b, a),
{
    match (a, b) {
        (ElemV::Text { loc: l1, text: t1 }, ElemV::Text { loc: l2, text: t2 }) => {
            lemma_lex_cmp_antisym(t1, t2);
        },
        _ => {},
    }
}

/// The ordering value an integer comparison result denotes.
pub open spec fn ordering_int(o: Ordering) -> int {
    match o {
        Ordering::Less => -1,
        Ordering::Equal => 0,
        Ordering::Greater => 1,
    }
}

/// Compare two integers into a chain link.
fn cmp_i128(a: i128, b: i128) -> (r: i8)
    ensures
        r as int == (if a < b {
            -1int
        } else if a > b {
            1int
        } else {
            0int
        }),
{
    if a < b {
        -1
    } else if a > b {
        1
    } else {
        0
    }
}

/// Lexicographic comparison of two strings.
fn str_cmp(a: &str, b: &str) -> (r: i8)
    ensures
        r as int == lex_cmp_chars(a@, b@),
        -1 <= r <= 1,
{
    let na = a.unicode_len();
    let nb = b.unicode_len();
    let mut i: usize = 0;
    proof {
        assert(a@.skip(0) =~= a@);
        assert(b@.skip(0) =~= b@);
    }
    loop
        invariant
            0 <= i,
            i <= na && i <= nb,
            na == a@.len() && nb == b@.len(),
            lex_cmp_chars(a@, b@) == lex_cmp_chars(a@.skip(i as int), b@.skip(i as int)),
        decreases na - i,
    {
        if i >= na || i >= nb {
            if na == nb {
                return 0;
            } else if na < nb {
                return -1;
            } else {
                return 1;
            }
        }
        let ca = a.get_char(i);
        let cb = b.get_char(i);
        if ca < cb {
            return -1;
        } else if cb < ca {
            return 1;
        }
        proof {
            assert(a@.skip(i as int).drop_first() =~= a@.skip(i + 1 as int));
            assert(b@.skip(i as int).drop_first() =~= b@.skip(i + 1 as int));
            assert(a@.skip(i as int)[0] == a@[i as int]);
            assert(b@.skip(i as int)[0] == b@[i as int]);
        }
        i = i + 1;
    }
}

impl Element {
    /// The total order of elements: by kind, then points, then attributes.
    pub fn cmp(&self, other: &Element) -> (r: Ordering)
        ensures
            ordering_int(r) == elem_cmp_spec(self@, other@),
    {
        let c = self.cmp_key(other);
        if c < 0 {
            Ordering::Less
        } else if c > 0 {
            Ordering::Greater
        } else {
            Ordering::Equal
        }
    }

    /// The chained comparison key of this element against another.
    fn cmp_key(&self, other: &Element) -> (r: i8)
        ensures
            r as int == elem_cmp_spec(self@, other@),
            -1 <= r <= 1,
    {
        let ta = self.tag();
        let tb = other.tag();
        if ta != tb {
            return cmp_i128(ta as i128, tb as i128);
        }
        match (self, other) {
            (Element::Circle(c1, r1), Element::Circle(c2, r2)) => {
                let mut c = cmp_i128(c1.y as i128, c2.y as i128);
                if c == 0 {
                    c = cmp_i128(c1.x as i128, c2.x as i128);
                }
                if c == 0 {
                    c = cmp_i128(*r1 as i128, *r2 as i128);
                }
                c
            },
            (Element::Line(s1, e1, k1, f1, g1), Element::Line(s2, e2, k2, f2, g2)) => {
                let mut c = cmp_i128(s1.y as i128, s2.y as i128);
                if c == 0 {
                    c = cmp_i128(s1.x as i128, s2.x as i128);
                }
                if c == 0 {
                    c = cmp_i128(e1.y as i128, e2.y as i128);
                }
                if c == 0 {
                    c = cmp_i128(e1.x as i128, e2.x as i128);
                }
                if c == 0 {
                    c = cmp_i128(stroke_rank_exec(*k1) as i128, stroke_rank_exec(*k2) as i128);
                }
                if c == 0 {
                    c = cmp_i128(feature_rank_exec(*f1) as i128, feature_rank_exec(*f2) as i128);
                }
                if c == 0 {
                    c = cmp_i128(feature_rank_exec(*g1) as i128, feature_rank_exec(*g2) as i128);
                }
                c
            },
            (
                Element::Arc(s1, e1, r1, l1, w1, k1, f1, g1),
                Element::Arc(s2, e2, r2, l2, w2, k2, f2, g2),
            ) => {
                let mut c = cmp_i128(s1.y as i128, s2.y as i128);
                if c == 0 {
                    c = cmp_i128(s1.x as i128, s2.x as i128);
                }
                if c == 0 {
                    c = cmp_i128(e1.y as i128, e2.y as i128);
                }
                if c == 0 {
                    c = cmp_i128(e1.x as i128, e2.x as i128);
                }
                if c == 0 {
                    c = cmp_i128(*r1 as i128, *r2 as i128);
                }
                if c == 0 {
                    c = cmp_i128(flag_rank_exec(*l1) as i128, flag_rank_exec(*l2) as i128);
                }
                if c == 0 {
                    let wa: i128 = if *w1 {
                        1
                    } else {
                        0
                    };
                    let wb: i128 = if *w2 {
                        1
                    } else {
                        0
                    };
                    c = cmp_i128(wa, wb);
                }
                if c == 0 {
                    c = cmp_i128(stroke_rank_exec(*k1) as i128, stroke_rank_exec(*k2) as i128);
                }
                if c == 0 {
                    c = cmp_i128(feature_rank_exec(*f1) as i128, feature_rank_exec(*f2) as i128);
                }
                if c == 0 {
                    c = cmp_i128(feature_rank_exec(*g1) as i128, feature_rank_exec(*g2) as i128);
                }
                c
            },
            (Element::Text(l1, t1), Element::Text(l2, t2)) => {
                let mut c = cmp_i128(l1.y as i128, l2.y as i128);
                if c == 0 {
                    c = cmp_i128(l1.x as i128, l2.x as i128);
                }
                if c == 0 {
                    c = str_cmp(t1.as_str(), t2.as_str());
                }
                c
            },
            _ => 0,
        }
    }

    /// The rank of this element's kind.
    fn tag(&self) -> (r: u8)
        ensures
            r as int == tag_rank(self@),
    {
        match self {
            Element::Circle(..) => 0,
            Element::Line(..) => 1,
            Element::Arc(..) => 2,
            Element::Text(..) => 3,
        }
    }
}

/// The rank of a stroke.
fn stroke_rank_exec(s: Stroke) -> (r: u8)
    ensures
        r as int == stroke_rank(s),
{
    match s {
        Stroke::Solid => 0,
        Stroke::Dashed => 1,
    }
}

/// The rank of a feature.
fn feature_rank_exec(f: Feature) -> (r: u8)
    ensures
        r as int == feature_rank(f),
{
    match f {
        Feature::Arrow => 0,
        Feature::ClearArrow => 1,
        Feature::Circle => 2,
        Feature::Square => 3,
        Feature::OpenCircle => 4,
        Feature::BigOpenCircle => 5,
        Feature::Nothing => 6,
    }
}

/// The rank of an arc flag.
fn flag_rank_exec(f: ArcFlag) -> (r: u8)
    ensures
        r as int == flag_rank(f),
{
    match f {
        ArcFlag::Major => 0,
        ArcFlag::Minor => 1,
    }
}


/// `e` inserted before the first element it does not exceed.
pub open spec fn insert_sorted(e: ElemV, s: Seq<ElemV>) -> Seq<ElemV>
    decreases s.len(),
{
    if s.len() == 0 {
        seq![e]
    } else if elem_cmp_spec(e, s[0]) <= 0 {
        seq![e] + s
    } else {
        seq![s[0]] + insert_sorted(e, s.drop_first())
    }
}

/// Insertion sort under the element order, taking the input from the
/// front and inserting each element into the sorted output.
pub open spec fn sort_spec(s: Seq<ElemV>) -> Seq<ElemV>
    decreases s.len(),
{
    if s.len() == 0 {
        Seq::empty()
    } else {
        insert_sorted(s.last(), sort_spec(s.drop_last()))
    }
}

/// Where the insertion lands: before the first element that is not
/// smaller than `e`.
proof fn lemma_insert_at(e: ElemV, s: Seq<ElemV>, j: int)
    requires
        0 <= j <= s.len(),
        forall|k: int| 0 <= k < j ==> elem_cmp_spec(e, #[trigger] s[k]) > 0,
        j < s.len() ==> elem_cmp_spec(e, s[j]) <= 0,
    ensures
        insert_sorted(e, s) == s.subrange(0, j) + seq![e] + s.subrange(j, s.len() as int),
    decreases s.len(),
{
    if s.len() == 0 {
        assert(insert_sorted(e, s) =~= s.subrange(0, j) + seq![e] + s.subrange(
            j,
            s.len() as int,
        ));
    } else if elem_cmp_spec(e, s[0]) <= 0 {
        assert(j == 0);
        assert(insert_sorted(e, s) =~= s.subrange(0, j) + seq![e] + s.subrange(
            j,
            s.len() as int,
        ));
    } else {
        assert(j >= 1);
        let rest = s.drop_first();
        assert forall|k: int| 0 <= k < j - 1 implies elem_cmp_spec(e, #[trigger] rest[k]) > 0 by {
            assert(rest[k] == s[k + 1]);
        }
        assert(j - 1 < rest.len() ==> elem_cmp_spec(e, rest[j - 1]) <= 0);
        lemma_insert_at(e, rest, j - 1);
        assert(insert_sorted(e, s) == seq![s[0]] + (rest.subrange(0, j - 1) + seq![e]
            + rest.subrange(j - 1, rest.len() as int)));
        assert(insert_sorted(e, s) =~= s.subrange(0, j) + seq![e] + s.subrange(
            j,
            s.len() as int,
        ));
    }
}

/// Insert one element at its place in the order.
fn insert_elem(v: &mut Vec<Element>, e: Element)
    ensures
        crate::reducer::elems_view(final(v)@) == insert_sorted(
            e@,
            crate::reducer::elems_view(old(v)@),
        ),
{
    let ghost s = crate::reducer::elems_view(v@);
    let n = v.len();
    let mut j: usize = 0;
    let mut found = false;
    while j < n && !found
        invariant
            0 <= j <= n,
            n == v@.len(),
            s == crate::reducer::elems_view(v@),
            forall|k: int| 0 <= k < j ==> elem_cmp_spec(e@, #[trigger] s[k]) > 0,
            found ==> j < n && elem_cmp_spec(e@, s[j as int]) <= 0,
        decreases n - j, (if found { 0int } else { 1int }),
    {
        proof {
            assert(s[j as int] == v@[j as int]@);
            lemma_elem_cmp_antisym(e@, s[j as int]);
        }
        if v[j].cmp_key(&e) >= 0 {
            found = true;
        } else {
            j = j + 1;
        }
    }
    proof {
        lemma_insert_at(e@, s, j as int);
    }
    v.insert(j, e);
    proof {
        assert(crate::reducer::elems_view(v@) =~= s.subrange(0, j as int) + seq![e@] + s.subrange(
            j as int,
            s.len() as int,
        ));
    }
}

/// Sort the element list by the total order of `Element::cmp`: the result
/// is exactly the insertion sort of the input.
pub fn sort_elements(v: &mut Vec<Element>)
    ensures
        crate::reducer::elems_view(final(v)@) == sort_spec(crate::reducer::elems_view(old(v)@)),
{
    let ghost s = crate::reducer::elems_view(v@);
    let mut out: Vec<Element> = Vec::new();
    let n = v.len();
    let mut i: usize = 0;
    proof {
        assert(crate::reducer::elems_view(out@) =~= sort_spec(s.subrange(0, 0)));
    }
    while i < n
        invariant
            0 <= i <= n,
            n == v@.len(),
            s == crate::reducer::elems_view(v@),
            crate::reducer::elems_view(out@) == sort_spec(s.subrange(0, i as int)),
        decreases n - i,
    {
        let e = v[i].clone();
        proof {
            assert(e@ == s[i as int]);
        }
        insert_elem(&mut out, e);
        proof {
            assert(s.subrange(0, i + 1 as int).drop_last() =~= s.subrange(0, i as int));
            assert(s.subrange(0, i + 1 as int).last() == s[i as int]);
        }
        i = i + 1;
    }
    proof {
        assert(s.subrange(0, n as int) =~= s);
    }
    *v = out;
}

/// Every element of the sorted list comes from the input, so geometric
/// well-formedness carries through the sort.
pub proof fn lemma_insert_sorted_wf(e: ElemV, s: Seq<ElemV>)
    requires
        crate::element::wf_elem(e),
        crate::reducer::all_wf(s),
    ensures
        crate::reducer::all_wf(insert_sorted(e, s)),
    decreases s.len(),
{
    if s.len() == 0 {
    } else if elem_cmp_spec(e, s[0]) <= 0 {
        let t = insert_sorted(e, s);
        assert forall|i: int| 0 <= i < t.len() implies crate::element::wf_elem(
            #[trigger] t[i],
        ) by {
            if i > 0 {
                assert(t[i] == s[i - 1]);
            }
        }
    } else {
        lemma_insert_sorted_wf(e, s.drop_first());
        let rest = insert_sorted(e, s.drop_first());
        let t = insert_sorted(e, s);
        assert forall|i: int| 0 <= i < t.len() implies crate::element::wf_elem(
            #[trigger] t[i],
        ) by {
            if i > 0 {
                assert(t[i] == rest[i - 1]);
            }
        }
    }
}

/// Sorting keeps every element well formed.
pub proof fn lemma_sort_wf(s: Seq<ElemV>)
    requires
        crate::reducer::all_wf(s),
    ensures
        crate::reducer::all_wf(sort_spec(s)),
    decreases s.len(),
{
    if s.len() > 0 {
        assert forall|i: int| 0 <= i < s.drop_last().len() implies crate::element::wf_elem(
            #[trigger] s.drop_last()[i],
        ) by {
            assert(s.drop_last()[i] == s[i]);
        }
        lemma_sort_wf(s.drop_last());
        lemma_insert_sorted_wf(s.last(), sort_spec(s.drop_last()));
    }
}


/// Rank of a fragment's kind, in declaration order.
pub open spec fn frag_tag_rank(f: Fragment) -> int {
    match f {
        Fragment::Line(..) => 0,
        Fragment::DashedLine(..) => 1,
        Fragment::CircleStartLine(..) => 2,
        Fragment::SquareStartLine(..) => 3,
        Fragment::CircleOpenLine(..) => 4,
        Fragment::BigCircleOpenLine(..) => 5,
        Fragment::ArrowLine(..) => 6,
        Fragment::ClearArrowLine(..) => 7,
        Fragment::StartArrowLine(..) => 8,
        Fragment::Arc(..) => 9,
        Fragment::OpenCircle(..) => 10,
    }
}

/// Lexicographic chaining through one symbolic point: cell offset (`dy`
/// before `dx`), then the block's position.
pub open spec fn pb_chain(p: PointBlock, q: PointBlock, rest: int) -> int {
    cmp_chain(
        p.dy as int,
        q.dy as int,
        cmp_chain(
            p.dx as int,
            q.dx as int,
            cmp_chain(
                crate::geom::block_row(p.block),
                crate::geom::block_row(q.block),
                cmp_chain(
                    crate::geom::block_col(p.block),
                    crate::geom::block_col(q.block),
                    rest,
                ),
            ),
        ),
    )
}

/// The total order on fragments: by kind, then by their symbolic points,
/// then by the radius multiplier.
pub open spec fn frag_cmp_spec(a: Fragment, b: Fragment) -> int {
    cmp_chain(
        frag_tag_rank(a),
        frag_tag_rank(b),
        match (a, b) {
            (Fragment::Line(p1, p2), Fragment::Line(q1, q2)) => pb_chain(
                p1,
                q1,
                pb_chain(p2, q2, 0),
            ),
            (Fragment::DashedLine(p1, p2), Fragment::DashedLine(q1, q2)) => pb_chain(
                p1,
                q1,
                pb_chain(p2, q2, 0),
            ),
            (Fragment::CircleStartLine(p1, p2), Fragment::CircleStartLine(q1, q2)) => pb_chain(
                p1,
                q1,
                pb_chain(p2, q2, 0),
            ),
            (Fragment::SquareStartLine(p1, p2), Fragment::SquareStartLine(q1, q2)) => pb_chain(
                p1,
                q1,
                pb_chain(p2, q2, 0),
            ),
            (Fragment::CircleOpenLine(p1, p2), Fragment::CircleOpenLine(q1, q2)) => pb_chain(
                p1,
                q1,
                pb_chain(p2, q2, 0),
            ),
            (Fragment::BigCircleOpenLine(p1, p2), Fragment::BigCircleOpenLine(q1, q2)) => pb_chain(
                p1,
                q1,
                pb_chain(p2, q2, 0),
            ),
            (Fragment::ArrowLine(p1, p2), Fragment::ArrowLine(q1, q2)) => pb_chain(
                p1,
                q1,
                pb_chain(p2, q2, 0),
            ),
            (Fragment::ClearArrowLine(p1, p2), Fragment::ClearArrowLine(q1, q2)) => pb_chain(
                p1,
                q1,
                pb_chain(p2, q2, 0),
            ),
            (Fragment::StartArrowLine(p1, p2), Fragment::StartArrowLine(q1, q2)) => pb_chain(
                p1,
                q1,
                pb_chain(p2, q2, 0),
            ),
            (Fragment::Arc(p1, p2, m1), Fragment::Arc(q1, q2, m2)) => pb_chain(
                p1,
                q1,
                pb_chain(p2, q2, cmp_chain(m1 as int, m2 as int, 0)),
            ),
            (Fragment::OpenCircle(p1, m1), Fragment::OpenCircle(q1, m2)) => pb_chain(
                p1,
                q1,
                cmp_chain(m1 as int, m2 as int, 0),
            ),
            _ => 0,
        },
    )
}

/// A fragment inserted before the first fragment it does not exceed.
pub open spec fn frag_insert_sorted(e: Fragment, s: Seq<Fragment>) -> Seq<Fragment>
    decreases s.len(),
{
    if s.len() == 0 {
        seq![e]
    } else if frag_cmp_spec(e, s[0]) <= 0 {
        seq![e] + s
    } else {
        seq![s[0]] + frag_insert_sorted(e, s.drop_first())
    }
}

/// Insertion sort of a fragment list under the fragment order.
pub open spec fn frag_sort_spec(s: Seq<Fragment>) -> Seq<Fragment>
    decreases s.len(),
{
    if s.len() == 0 {
        Seq::empty()
    } else {
        frag_insert_sorted(s.last(), frag_sort_spec(s.drop_last()))
    }
}

/// Every fragment of an insertion comes from the inserted fragment or the
/// list.
pub proof fn lemma_frag_insert_from(e: Fragment, s: Seq<Fragment>)
    ensures
        forall|i: int|
            0 <= i < frag_insert_sorted(e, s).len() ==> (#[trigger] frag_insert_sorted(e, s)[i])
                == e || s.contains(frag_insert_sorted(e, s)[i]),
    decreases s.len(),
{
    let t = frag_insert_sorted(e, s);
    if s.len() == 0 {
    } else if frag_cmp_spec(e, s[0]) <= 0 {
        assert forall|i: int| 0 <= i < t.len() implies (#[trigger] t[i]) == e || s.contains(
            t[i],
        ) by {
            if i > 0 {
                assert(t[i] == s[i - 1]);
            }
        }
    } else {
        lemma_frag_insert_from(e, s.drop_first());
        let rest = frag_insert_sorted(e, s.drop_first());
        assert forall|i: int| 0 <= i < t.len() implies (#[trigger] t[i]) == e || s.contains(
            t[i],
        ) by {
            if i == 0 {
                assert(t[0] == s[0]);
                assert(s.contains(s[0]));
            } else {
                assert(t[i] == rest[i - 1]);
                if rest[i - 1] != e {
                    let j = choose|j: int|
                        0 <= j < s.drop_first().len() && s.drop_first()[j] == rest[i - 1];
                    assert(s[j + 1] == rest[i - 1]);
                }
            }
        }
    }
}

/// Every fragment of the sorted list comes from the input.
pub proof fn lemma_frag_sort_from(s: Seq<Fragment>)
    ensures
        forall|i: int|
            0 <= i < frag_sort_spec(s).len() ==> s.contains(#[trigger] frag_sort_spec(s)[i]),
    decreases s.len(),
{
    if s.len() > 0 {
        lemma_frag_sort_from(s.drop_last());
        lemma_frag_insert_from(s.last(), frag_sort_spec(s.drop_last()));
        let t = frag_sort_spec(s);
        assert forall|i: int| 0 <= i < t.len() implies s.contains(#[trigger] t[i]) by {
            if t[i] == s.last() {
                assert(s[s.len() - 1] == s.last());
            } else {
                assert(frag_sort_spec(s.drop_last()).contains(t[i]));
                let j = choose|j: int|
                    0 <= j < s.drop_last().len() && s.drop_last()[j] == t[i];
                assert(s[j] == t[i]);
            }
        }
    }
}

/// Where a fragment insertion lands.
proof fn lemma_frag_insert_at(e: Fragment, s: Seq<Fragment>, j: int)
    requires
        0 <= j <= s.len(),
        forall|k: int| 0 <= k < j ==> frag_cmp_spec(e, #[trigger] s[k]) > 0,
        j < s.len() ==> frag_cmp_spec(e, s[j]) <= 0,
    ensures
        frag_insert_sorted(e, s) == s.subrange(0, j) + seq![e] + s.subrange(j, s.len() as int),
    decreases s.len(),
{
    if s.len() == 0 {
        assert(frag_insert_sorted(e, s) =~= s.subrange(0, j) + seq![e] + s.subrange(
            j,
            s.len() as int,
        ));
    } else if frag_cmp_spec(e, s[0]) <= 0 {
        assert(j == 0);
        assert(frag_insert_sorted(e, s) =~= s.subrange(0, j) + seq![e] + s.subrange(
            j,
            s.len() as int,
        ));
    } else {
        assert(j >= 1);
        let rest = s.drop_first();
        assert forall|k: int| 0 <= k < j - 1 implies frag_cmp_spec(e, #[trigger] rest[k]) > 0 by {
            assert(rest[k] == s[k + 1]);
        }
        lemma_frag_insert_at(e, rest, j - 1);
        assert(frag_insert_sorted(e, s) =~= s.subrange(0, j) + seq![e] + s.subrange(
            j,
            s.len() as int,
        ));
    }
}

/// Compare two symbolic points into a chain link.
fn pb_cmp(p: &PointBlock, q: &PointBlock, rest: i8) -> (r: i8)
    requires
        -1 <= rest <= 1,
    ensures
        r as int == pb_chain(*p, *q, rest as int),
        -1 <= r <= 1,
{
    let mut c = cmp_i128(p.dy as i128, q.dy as i128);
    if c == 0 {
        c = cmp_i128(p.dx as i128, q.dx as i128);
    }
    if c == 0 {
        c = cmp_i128(
            crate::geom::block_row_exec(p.block) as i128,
            crate::geom::block_row_exec(q.block) as i128,
        );
    }
    if c == 0 {
        c = cmp_i128(
            crate::geom::block_col_exec(p.block) as i128,
            crate::geom::block_col_exec(q.block) as i128,
        );
    }
    if c == 0 {
        rest
    } else {
        c
    }
}

/// Compare two fragments under the fragment order.
fn frag_cmp(a: &Fragment, b: &Fragment) -> (r: i8)
    ensures
        r as int == frag_cmp_spec(*a, *b),
        -1 <= r <= 1,
{
    let ta = frag_tag(a);
    let tb = frag_tag(b);
    if ta != tb {
        return cmp_i128(ta as i128, tb as i128);
    }
    match (a, b) {
        (Fragment::Line(p1, p2), Fragment::Line(q1, q2))
        | (Fragment::DashedLine(p1, p2), Fragment::DashedLine(q1, q2))
        | (Fragment::CircleStartLine(p1, p2), Fragment::CircleStartLine(q1, q2))
        | (Fragment::SquareStartLine(p1, p2), Fragment::SquareStartLine(q1, q2))
        | (Fragment::CircleOpenLine(p1, p2), Fragment::CircleOpenLine(q1, q2))
        | (Fragment::BigCircleOpenLine(p1, p2), Fragment::BigCircleOpenLine(q1, q2))
        | (Fragment::ArrowLine(p1, p2), Fragment::ArrowLine(q1, q2))
        | (Fragment::ClearArrowLine(p1, p2), Fragment::ClearArrowLine(q1, q2))
        | (Fragment::StartArrowLine(p1, p2), Fragment::StartArrowLine(q1, q2)) => pb_cmp(
            p1,
            q1,
            pb_cmp(p2, q2, 0),
        ),
        (Fragment::Arc(p1, p2, m1), Fragment::Arc(q1, q2, m2)) => pb_cmp(
            p1,
            q1,
            pb_cmp(p2, q2, cmp_i128(*m1 as i128, *m2 as i128)),
        ),
        (Fragment::OpenCircle(p1, m1), Fragment::OpenCircle(q1, m2)) => pb_cmp(
            p1,
            q1,
            cmp_i128(*m1 as i128, *m2 as i128),
        ),
        _ => 0,
    }
}

/// The rank of a fragment's kind.
fn frag_tag(f: &Fragment) -> (r: u8)
    ensures
        r as int == frag_tag_rank(*f),
{
    match f {
        Fragment::Line(..) => 0,
        Fragment::DashedLine(..) => 1,
        Fragment::CircleStartLine(..) => 2,
        Fragment::SquareStartLine(..) => 3,
        Fragment::CircleOpenLine(..) => 4,
        Fragment::BigCircleOpenLine(..) => 5,
        Fragment::ArrowLine(..) => 6,
        Fragment::ClearArrowLine(..) => 7,
        Fragment::StartArrowLine(..) => 8,
        Fragment::Arc(..) => 9,
        Fragment::OpenCircle(..) => 10,
    }
}

/// Insert one fragment at its place in the order.
fn frag_insert(v: &mut Vec<Fragment>, e: Fragment)
    ensures
        final(v)@ == frag_insert_sorted(e, old(v)@),
{
    let ghost s = v@;
    let n = v.len();
    let mut j: usize = 0;
    let mut found = false;
    while j < n && !found
        invariant
            0 <= j <= n,
            n == v@.len(),
            s == v@,
            forall|k: int| 0 <= k < j ==> frag_cmp_spec(e, #[trigger] s[k]) > 0,
            found ==> j < n && frag_cmp_spec(e, s[j as int]) <= 0,
        decreases n - j, (if found { 0int } else { 1int }),
    {
        if frag_cmp(&e, &v[j]) <= 0 {
            found = true;
        } else {
            j = j + 1;
        }
    }
    proof {
        lemma_frag_insert_at(e, s, j as int);
    }
    v.insert(j, e);
    proof {
        assert(v@ =~= s.subrange(0, j as int) + seq![e] + s.subrange(j as int, s.len() as int));
    }
}

/// Sort a fragment list by the fragment order: the result is exactly the
/// insertion sort of the input.
pub fn frag_sort(v: &mut Vec<Fragment>)
    ensures
        final(v)@ == frag_sort_spec(old(v)@),
{
    let ghost s = v@;
    let mut out: Vec<Fragment> = Vec::new();
    let n = v.len();
    let mut i: usize = 0;
    proof {
        assert(out@ =~= frag_sort_spec(s.subrange(0, 0)));
    }
    while i < n
        invariant
            0 <= i <= n,
            n == v@.len(),
            s == v@,
            out@ == frag_sort_spec(s.subrange(0, i as int)),
        decreases n - i,
    {
        frag_insert(&mut out, v[i]);
        proof {
            assert(s.subrange(0, i + 1 as int).drop_last() =~= s.subrange(0, i as int));
            assert(s.subrange(0, i + 1 as int).last() == s[i as int]);
        }
        i = i + 1;
    }
    proof {
        assert(s.subrange(0, n as int) =~= s);
    }
    *v = out;
}



/// The fragment order is transitive.
#[verifier::rlimit(100)]
#[verifier::spinoff_prover]
pub proof fn lemma_frag_cmp_trans(a: Fragment, b: Fragment, c: Fragment)
    requires
        frag_cmp_spec(a, b) <= 0,
        frag_cmp_spec(b, c) <= 0,
    ensures
        frag_cmp_spec(a, c) <= 0,
{
    let ta = frag_tag_rank(a);
    let tb = frag_tag_rank(b);
    let tc = frag_tag_rank(c);
    assert(ta <= tb && tb <= tc);
    if ta == tc {
        match (a, b, c) {
            (Fragment::Line(p1, p2), Fragment::Line(q1, q2), Fragment::Line(r1, r2)) => {
                assert(frag_cmp_spec(a, c) <= 0);
            },
            (
                Fragment::DashedLine(p1, p2),
                Fragment::DashedLine(q1, q2),
                Fragment::DashedLine(r1, r2),
            ) => {
                assert(frag_cmp_spec(a, c) <= 0);
            },
            (
                Fragment::CircleStartLine(p1, p2),
                Fragment::CircleStartLine(q1, q2),
                Fragment::CircleStartLine(r1, r2),
            ) => {
                assert(frag_cmp_spec(a, c) <= 0);
            },
            (
                Fragment::SquareStartLine(p1, p2),
                Fragment::SquareStartLine(q1, q2),
                Fragment::SquareStartLine(r1, r2),
            ) => {
                assert(frag_cmp_spec(a, c) <= 0);
            },
            (
                Fragment::CircleOpenLine(p1, p2),
                Fragment::CircleOpenLine(q1, q2),
                Fragment::CircleOpenLine(r1, r2),
            ) => {
                assert(frag_cmp_spec(a, c) <= 0);
            },
            (
                Fragment::BigCircleOpenLine(p1, p2),
                Fragment::BigCircleOpenLine(q1, q2),
                Fragment::BigCircleOpenLine(r1, r2),
            ) => {
                assert(frag_cmp_spec(a, c) <= 0);
            },
            (
                Fragment::ArrowLine(p1, p2),
                Fragment::ArrowLine(q1, q2),
                Fragment::ArrowLine(r1, r2),
            ) => {
                assert(frag_cmp_spec(a, c) <= 0);
            },
            (
                Fragment::ClearArrowLine(p1, p2),
                Fragment::ClearArrowLine(q1, q2),
                Fragment::ClearArrowLine(r1, r2),
            ) => {
                assert(frag_cmp_spec(a, c) <= 0);
            },
            (
                Fragment::StartArrowLine(p1, p2),
                Fragment::StartArrowLine(q1, q2),
                Fragment::StartArrowLine(r1, r2),
            ) => {
                assert(frag_cmp_spec(a, c) <= 0);
            },
            (
                Fragment::Arc(p1, p2, m1),
                Fragment::Arc(q1, q2, m2),
                Fragment::Arc(r1, r2, m3),
            ) => {
                assert(frag_cmp_spec(a, c) <= 0);
            },
            (
                Fragment::OpenCircle(p1, m1),
                Fragment::OpenCircle(q1, m2),
                Fragment::OpenCircle(r1, m3),
            ) => {
                assert(frag_cmp_spec(a, c) <= 0);
            },
            _ => {},
        }
    }
}


/// The fragment order reverses with its arguments.
#[verifier::rlimit(100)]
#[verifier::spinoff_prover]
pub proof fn lemma_frag_cmp_antisym(a: Fragment, b: Fragment)
    ensures
        frag_cmp_spec(a, b) == -frag_cmp_spec(b, a),
{
    if frag_tag_rank(a) == frag_tag_rank(b) {
        match (a, b) {
            (Fragment::Line(p1, p2), Fragment::Line(q1, q2)) => {
                assert(frag_cmp_spec(a, b) == -frag_cmp_spec(b, a));
            },
            (Fragment::DashedLine(p1, p2), Fragment::DashedLine(q1, q2)) => {
                assert(frag_cmp_spec(a, b) == -frag_cmp_spec(b, a));
            },
            (Fragment::CircleStartLine(p1, p2), Fragment::CircleStartLine(q1, q2)) => {
                assert(frag_cmp_spec(a, b) == -frag_cmp_spec(b, a));
            },
            (Fragment::SquareStartLine(p1, p2), Fragment::SquareStartLine(q1, q2)) => {
                assert(frag_cmp_spec(a, b) == -frag_cmp_spec(b, a));
            },
            (Fragment::CircleOpenLine(p1, p2), Fragment::CircleOpenLine(q1, q2)) => {
                assert(frag_cmp_spec(a, b) == -frag_cmp_spec(b, a));
            },
            (Fragment::BigCircleOpenLine(p1, p2), Fragment::BigCircleOpenLine(q1, q2)) => {
                assert(frag_cmp_spec(a, b) == -frag_cmp_spec(b, a));
            },
            (Fragment::ArrowLine(p1, p2), Fragment::ArrowLine(q1, q2)) => {
                assert(frag_cmp_spec(a, b) == -frag_cmp_spec(b, a));
            },
            (Fragment::ClearArrowLine(p1, p2), Fragment::ClearArrowLine(q1, q2)) => {
                assert(frag_cmp_spec(a, b) == -frag_cmp_spec(b, a));
            },
            (Fragment::StartArrowLine(p1, p2), Fragment::StartArrowLine(q1, q2)) => {
                assert(frag_cmp_spec(a, b) == -frag_cmp_spec(b, a));
            },
            (Fragment::Arc(p1, p2, m1), Fragment::Arc(q1, q2, m2)) => {
                assert(frag_cmp_spec(a, b) == -frag_cmp_spec(b, a));
            },
            (Fragment::OpenCircle(p1, m1), Fragment::OpenCircle(q1, m2)) => {
                assert(frag_cmp_spec(a, b) == -frag_cmp_spec(b, a));
            },
            _ => {},
        }
    }
}

/// The list is non-decreasing under the fragment order.
pub open spec fn frags_sorted(s: Seq<Fragment>) -> bool {
    forall|i: int, j: int| 0 <= i < j < s.len() ==> frag_cmp_spec(#[trigger] s[i], #[trigger] s[j]) <= 0
}

/// Insertion keeps the list sorted.
proof fn lemma_frag_insert_preserves_sorted(e: Fragment, s: Seq<Fragment>)
    requires
        frags_sorted(s),
    ensures
        frags_sorted(frag_insert_sorted(e, s)),
    decreases s.len(),
{
    let t = frag_insert_sorted(e, s);
    if s.len() == 0 {
    } else if frag_cmp_spec(e, s[0]) <= 0 {
        assert forall|i: int, j: int|
            0 <= i < j < t.len() implies frag_cmp_spec(#[trigger] t[i], #[trigger] t[j]) <= 0 by {
            if i == 0 {
                assert(t[0] == e && t[j] == s[j - 1]);
                if j > 1 {
                    lemma_frag_cmp_trans(e, s[0], s[j - 1]);
                }
            } else {
                assert(t[i] == s[i - 1] && t[j] == s[j - 1]);
            }
        }
    } else {
        let rest = s.drop_first();
        assert forall|i: int, j: int|
            0 <= i < j < rest.len() implies frag_cmp_spec(
            #[trigger] rest[i],
            #[trigger] rest[j],
        ) <= 0 by {
            assert(rest[i] == s[i + 1] && rest[j] == s[j + 1]);
        }
        lemma_frag_insert_preserves_sorted(e, rest);
        let tr = frag_insert_sorted(e, rest);
        lemma_frag_insert_from(e, rest);
        lemma_frag_cmp_antisym(e, s[0]);
        assert forall|i: int, j: int|
            0 <= i < j < t.len() implies frag_cmp_spec(#[trigger] t[i], #[trigger] t[j]) <= 0 by {
            if i == 0 {
                assert(t[0] == s[0] && t[j] == tr[j - 1]);
                if tr[j - 1] == e {
                    assert(frag_cmp_spec(s[0], e) <= 0);
                } else {
                    assert(rest.contains(tr[j - 1]));
                    let k = choose|k: int| 0 <= k < rest.len() && rest[k] == tr[j - 1];
                    assert(rest[k] == s[k + 1]);
                    assert(frag_cmp_spec(s[0], s[k + 1]) <= 0);
                }
            } else {
                assert(t[i] == tr[i - 1] && t[j] == tr[j - 1]);
            }
        }
    }
}

/// The insertion sort of a fragment list is sorted.
pub proof fn lemma_frag_sort_sorted(s: Seq<Fragment>)
    ensures
        frags_sorted(frag_sort_spec(s)),
    decreases s.len(),
{
    if s.len() > 0 {
        lemma_frag_sort_sorted(s.drop_last());
        lemma_frag_insert_preserves_sorted(s.last(), frag_sort_spec(s.drop_last()));
    }
}


/// The element order is transitive.
#[verifier::rlimit(100)]
#[verifier::spinoff_prover]
pub proof fn lemma_elem_cmp_trans(a: ElemV, b: ElemV, c: ElemV)
    requires
        elem_cmp_spec(a, b) <= 0,
        elem_cmp_spec(b, c) <= 0,
    ensures
        elem_cmp_spec(a, c) <= 0,
{
    let ta = tag_rank(a);
    let tb = tag_rank(b);
    let tc = tag_rank(c);
    assert(ta <= tb && tb <= tc);
    if ta == tc {
        match (a, b, c) {
            (ElemV::Circle { .. }, ElemV::Circle { .. }, ElemV::Circle { .. }) => {
                assert(elem_cmp_spec(a, c) <= 0);
            },
            (ElemV::Line { .. }, ElemV::Line { .. }, ElemV::Line { .. }) => {
                assert(elem_cmp_spec(a, c) <= 0);
            },
            (ElemV::Arc { .. }, ElemV::Arc { .. }, ElemV::Arc { .. }) => {
                assert(elem_cmp_spec(a, c) <= 0);
            },
            (
                ElemV::Text { loc: l1, text: t1 },
                ElemV::Text { loc: l2, text: t2 },
                ElemV::Text { loc: l3, text: t3 },
            ) => {
                lemma_lex_cmp_trans(t1, t2, t3);
                assert(elem_cmp_spec(a, c) <= 0);
            },
            _ => {},
        }
    }
}

/// Lexicographic character comparison is transitive.
proof fn lemma_lex_cmp_trans(a: Seq<char>, b: Seq<char>, c: Seq<char>)
    ensures
        lex_cmp_chars(a, b) <= 0 && lex_cmp_chars(b, c) <= 0 ==> lex_cmp_chars(a, c) <= 0,
    decreases a.len(),
{
    if a.len() > 0 && b.len() > 0 && c.len() > 0 {
        lemma_lex_cmp_trans(a.drop_first(), b.drop_first(), c.drop_first());
    }
}

/// The list is non-decreasing under the element order.
pub open spec fn elems_sorted(s: Seq<ElemV>) -> bool {
    forall|i: int, j: int|
        0 <= i < j < s.len() ==> elem_cmp_spec(#[trigger] s[i], #[trigger] s[j]) <= 0
}

/// Every element of an insertion comes from the inserted element or the
/// list.
proof fn lemma_insert_sorted_from(e: ElemV, s: Seq<ElemV>)
    ensures
        forall|i: int|
            0 <= i < insert_sorted(e, s).len() ==> (#[trigger] insert_sorted(e, s)[i]) == e
                || s.contains(insert_sorted(e, s)[i]),
    decreases s.len(),
{
    let t = insert_sorted(e, s);
    if s.len() == 0 {
    } else if elem_cmp_spec(e, s[0]) <= 0 {
        assert forall|i: int| 0 <= i < t.len() implies (#[trigger] t[i]) == e || s.contains(
            t[i],
        ) by {
            if i > 0 {
                assert(t[i] == s[i - 1]);
            }
        }
    } else {
        lemma_insert_sorted_from(e, s.drop_first());
        let rest = insert_sorted(e, s.drop_first());
        assert forall|i: int| 0 <= i < t.len() implies (#[trigger] t[i]) == e || s.contains(
            t[i],
        ) by {
            if i == 0 {
                assert(t[0] == s[0] && s.contains(s[0]));
            } else {
                assert(t[i] == rest[i - 1]);
                if rest[i - 1] != e {
                    let j = choose|j: int|
                        0 <= j < s.drop_first().len() && s.drop_first()[j] == rest[i - 1];
                    assert(s[j + 1] == rest[i - 1]);
                }
            }
        }
    }
}

/// Insertion keeps the element list sorted.
proof fn lemma_insert_preserves_sorted(e: ElemV, s: Seq<ElemV>)
    requires
        elems_sorted(s),
    ensures
        elems_sorted(insert_sorted(e, s)),
    decreases s.len(),
{
    let t = insert_sorted(e, s);
    if s.len() == 0 {
    } else if elem_cmp_spec(e, s[0]) <= 0 {
        assert forall|i: int, j: int|
            0 <= i < j < t.len() implies elem_cmp_spec(#[trigger] t[i], #[trigger] t[j]) <= 0 by {
            if i == 0 {
                assert(t[0] == e && t[j] == s[j - 1]);
                if j > 1 {
                    lemma_elem_cmp_trans(e, s[0], s[j - 1]);
                }
            } else {
                assert(t[i] == s[i - 1] && t[j] == s[j - 1]);
            }
        }
    } else {
        let rest = s.drop_first();
        assert forall|i: int, j: int|
            0 <= i < j < rest.len() implies elem_cmp_spec(
            #[trigger] rest[i],
            #[trigger] rest[j],
        ) <= 0 by {
            assert(rest[i] == s[i + 1] && rest[j] == s[j + 1]);
        }
        lemma_insert_preserves_sorted(e, rest);
        let tr = insert_sorted(e, rest);
        lemma_insert_sorted_from(e, rest);
        lemma_elem_cmp_antisym(e, s[0]);
        assert forall|i: int, j: int|
            0 <= i < j < t.len() implies elem_cmp_spec(#[trigger] t[i], #[trigger] t[j]) <= 0 by {
            if i == 0 {
                assert(t[0] == s[0] && t[j] == tr[j - 1]);
                if tr[j - 1] == e {
                    assert(elem_cmp_spec(s[0], e) <= 0);
                } else {
                    assert(rest.contains(tr[j - 1]));
                    let k = choose|k: int| 0 <= k < rest.len() && rest[k] == tr[j - 1];
                    assert(rest[k] == s[k + 1]);
                    assert(elem_cmp_spec(s[0], s[k + 1]) <= 0);
                }
            } else {
                assert(t[i] == tr[i - 1] && t[j] == tr[j - 1]);
            }
        }
    }
}

/// The insertion sort of an element list is sorted: the list the document
/// serializes is totally ordered.
pub proof fn lemma_sort_spec_sorted(s: Seq<ElemV>)
    ensures
        elems_sorted(sort_spec(s)),
    decreases s.len(),
{
    if s.len() > 0 {
        lemma_sort_spec_sorted(s.drop_last());
        lemma_insert_preserves_sorted(s.last(), sort_spec(s.drop_last()));
    }
}

} // verus!
