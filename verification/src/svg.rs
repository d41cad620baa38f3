use vstd::prelude::*;
use crate::geom::{Loc, Point};
use crate::element::{Element, ElemV, Stroke, Feature, ArcFlag, marker_of};
use crate::settings::Settings;
use crate::text::str_chars;
use crate::grid::{GridV, grid_cols, grid_dims_ok};
use crate::element::wf_elem;

verus! {

/// The decimal digit character of `d`.
pub open spec fn digit_char(d: int) -> char {
    if d == 0 {
        '0'
    } else if d == 1 {
        '1'
    } else if d == 2 {
        '2'
    } else if d == 3 {
        '3'
    } else if d == 4 {
        '4'
    } else if d == 5 {
        '5'
    } else if d == 6 {
        '6'
    } else if d == 7 {
        '7'
    } else if d == 8 {
        '8'
    } else {
        '9'
    }
}

/// The decimal digits of a non-negative number, most significant first.
pub open spec fn dec_digits(n: int) -> Seq<char>
    decreases n,
{
    if n < 10 {
        seq![digit_char(n)]
    } else {
        dec_digits(n / 10).push(digit_char(n % 10))
    }
}

/// The exact decimal rendering of `n / 8`: an integer part, and a fraction
/// part in eighths (`.125` steps) with no trailing zeros.
pub open spec fn eighths_str(n: int) -> Seq<char>
    decreases (if n < 0 {
        1int
    } else {
        0int
    }),
{
    if n < 0 {
        seq!['-'] + eighths_str(-n)
    } else {
        dec_digits(n / 8) + eighth_frac(n % 8)
    }
}

/// The fraction digits of `r / 8`, `r` in `0 .. 8`.
pub open spec fn eighth_frac(r: int) -> Seq<char> {
    if r == 1 {
        seq!['.', '1', '2', '5']
    } else if r == 2 {
        seq!['.', '2', '5']
    } else if r == 3 {
        seq!['.', '3', '7', '5']
    } else if r == 4 {
        seq!['.', '5']
    } else if r == 5 {
        seq!['.', '6', '2', '5']
    } else if r == 6 {
        seq!['.', '7', '5']
    } else if r == 7 {
        seq!['.', '8', '7', '5']
    } else {
        Seq::empty()
    }
}

/// How one character is escaped in XML text and attribute content.
pub open spec fn esc_char(c: char) -> Seq<char> {
    if c == '<' {
        "&lt;"@
    } else if c == '>' {
        "&gt;"@
    } else if c == '&' {
        "&amp;"@
    } else if c == '"' {
        "&quot;"@
    } else if c == '\'' {
        "&apos;"@
    } else {
        seq![c]
    }
}

/// A string with its five XML-special characters escaped.
pub open spec fn escape_seq(s: Seq<char>) -> Seq<char>
    decreases s.len(),
{
    if s.len() == 0 {
        Seq::empty()
    } else {
        escape_seq(s.drop_last()) + esc_char(s.last())
    }
}

/// The decimal digit character.
fn digit_to_char(d: u128) -> (c: char)
    requires
        d < 10,
    ensures
        c == digit_char(d as int),
{
    if d == 0 {
        '0'
    } else if d == 1 {
        '1'
    } else if d == 2 {
        '2'
    } else if d == 3 {
        '3'
    } else if d == 4 {
        '4'
    } else if d == 5 {
        '5'
    } else if d == 6 {
        '6'
    } else if d == 7 {
        '7'
    } else if d == 8 {
        '8'
    } else {
        '9'
    }
}

/// Append the decimal digits of `n`.
fn push_dec(out: &mut Vec<char>, n: u128)
    ensures
        final(out)@ == old(out)@ + dec_digits(n as int),
    decreases n,
{
    if n < 10 {
        let c: char = digit_to_char(n);
        out.push(c);
        proof {
            assert(out@ =~= old(out)@ + dec_digits(n as int));
        }
    } else {
        push_dec(out, n / 10);
        let c: char = digit_to_char(n % 10);
        out.push(c);
        proof {
            assert(out@ =~= old(out)@ + dec_digits(n as int));
        }
    }
}

/// Append the characters of a literal.
fn push_str(out: &mut Vec<char>, s: &str)
    ensures
        final(out)@ == old(out)@ + s@,
{
    let v = str_chars(s);
    let n = v.len();
    let mut i: usize = 0;
    while i < n
        invariant
            0 <= i <= n,
            n == v@.len(),
            v@ == s@,
            out@ == old(out)@ + s@.subrange(0, i as int),
        decreases n - i,
    {
        out.push(v[i]);
        proof {
            assert(out@ =~= old(out)@ + s@.subrange(0, i + 1 as int));
        }
        i = i + 1;
    }
    proof {
        assert(s@.subrange(0, n as int) =~= s@);
    }
}

/// Append the exact decimal of `n / 8`.
fn push_eighths(out: &mut Vec<char>, n: i128)
    requires
        -0x10_0000_0000_0000_0000_0000 <= n <= 0x10_0000_0000_0000_0000_0000,
    ensures
        final(out)@ == old(out)@ + eighths_str(n as int),
{
    let ghost pre = out@;
    let m: u128 = if n < 0 {
        out.push('-');
        (-n) as u128
    } else {
        n as u128
    };
    push_dec(out, m / 8);
    let r: u128 = m % 8;
    if r == 1 {
        push_str(out, ".125");
    } else if r == 2 {
        push_str(out, ".25");
    } else if r == 3 {
        push_str(out, ".375");
    } else if r == 4 {
        push_str(out, ".5");
    } else if r == 5 {
        push_str(out, ".625");
    } else if r == 6 {
        push_str(out, ".75");
    } else if r == 7 {
        push_str(out, ".875");
    }
    proof {
        reveal_strlit(".125");
        reveal_strlit(".25");
        reveal_strlit(".375");
        reveal_strlit(".5");
        reveal_strlit(".625");
        reveal_strlit(".75");
        reveal_strlit(".875");
        assert(m as int == (if n < 0 { -(n as int) } else { n as int }));
        if n < 0 {
            assert(eighths_str(n as int) == seq!['-'] + eighths_str(m as int));
            assert(eighths_str(m as int) == dec_digits(m as int / 8) + eighth_frac(m as int % 8));
            assert(".125"@ =~= eighth_frac(1));
            assert(".25"@ =~= eighth_frac(2));
            assert(".375"@ =~= eighth_frac(3));
            assert(".5"@ =~= eighth_frac(4));
            assert(".625"@ =~= eighth_frac(5));
            assert(".75"@ =~= eighth_frac(6));
            assert(".875"@ =~= eighth_frac(7));
            assert(out@ =~= pre + eighths_str(n as int));
        } else {
            assert(".125"@ =~= eighth_frac(1));
            assert(".25"@ =~= eighth_frac(2));
            assert(".375"@ =~= eighth_frac(3));
            assert(".5"@ =~= eighth_frac(4));
            assert(".625"@ =~= eighth_frac(5));
            assert(".75"@ =~= eighth_frac(6));
            assert(".875"@ =~= eighth_frac(7));
            assert(out@ =~= pre + eighths_str(n as int));
        }
    }
}

/// Escaping distributes over appending one character.
proof fn lemma_escape_snoc(s: Seq<char>, c: char)
    ensures
        escape_seq(s.push(c)) == escape_seq(s) + esc_char(c),
{
    assert(s.push(c).drop_last() =~= s);
    assert(s.push(c).last() == c);
}

/// Append the escaped characters of a string.
fn push_escaped(out: &mut Vec<char>, s: &str)
    ensures
        final(out)@ == old(out)@ + escape_seq(s@),
{
    let v = str_chars(s);
    let n = v.len();
    let mut i: usize = 0;
    while i < n
        invariant
            0 <= i <= n,
            n == v@.len(),
            v@ == s@,
            out@ == old(out)@ + escape_seq(s@.subrange(0, i as int)),
        decreases n - i,
    {
        let c = v[i];
        let ghost pre = out@;
        if c == '<' {
            push_str(out, "&lt;");
        } else if c == '>' {
            push_str(out, "&gt;");
        } else if c == '&' {
            push_str(out, "&amp;");
        } else if c == '"' {
            push_str(out, "&quot;");
        } else if c == '\'' {
            push_str(out, "&apos;");
        } else {
            out.push(c);
        }
        proof {
            reveal_strlit("&lt;");
            reveal_strlit("&gt;");
            reveal_strlit("&amp;");
            reveal_strlit("&quot;");
            reveal_strlit("&apos;");
            assert(out@ =~= pre + esc_char(c));
            assert(s@.subrange(0, i + 1 as int).drop_last() =~= s@.subrange(0, i as int));
            lemma_escape_snoc(s@.subrange(0, i as int), c);
            assert(s@.subrange(0, i as int).push(c) =~= s@.subrange(0, i + 1 as int));
            assert(out@ =~= old(out)@ + escape_seq(s@.subrange(0, i + 1 as int)));
        }
        i = i + 1;
    }
    proof {
        assert(s@.subrange(0, n as int) =~= s@);
    }
}

/// Escaped text holds none of the characters that delimit XML markup.
pub proof fn lemma_escape_safe(s: Seq<char>)
    ensures
        forall|i: int|
            0 <= i < escape_seq(s).len() ==> #[trigger] escape_seq(s)[i] != '<' && escape_seq(s)[i]
                != '>' && escape_seq(s)[i] != '"' && escape_seq(s)[i] != '\'',
    decreases s.len(),
{
    reveal_strlit("&lt;");
    reveal_strlit("&gt;");
    reveal_strlit("&amp;");
    reveal_strlit("&quot;");
    reveal_strlit("&apos;");
    if s.len() == 0 {
    } else {
        lemma_escape_safe(s.drop_last());
        let pre = escape_seq(s.drop_last());
        let tail = esc_char(s.last());
        assert(escape_seq(s) == pre + tail);
        assert forall|i: int| 0 <= i < tail.len() implies #[trigger] tail[i] != '<' && tail[i]
            != '>' && tail[i] != '"' && tail[i] != '\'' by {
            if s.last() == '<' {
            } else if s.last() == '>' {
            } else if s.last() == '&' {
            } else if s.last() == '"' {
            } else if s.last() == '\'' {
            } else {
                assert(tail =~= seq![s.last()]);
            }
        }
        assert forall|i: int| 0 <= i < escape_seq(s).len() implies #[trigger] escape_seq(s)[i]
            != '<' && escape_seq(s)[i] != '>' && escape_seq(s)[i] != '"' && escape_seq(s)[i]
            != '\'' by {
            if i < pre.len() {
                assert(escape_seq(s)[i] == pre[i]);
            } else {
                assert(escape_seq(s)[i] == tail[i - pre.len()]);
            }
        }
    }
}


/// One of the five escape entities starts at position `i` of `s`.
pub open spec fn entity_at(s: Seq<char>, i: int) -> bool {
    ||| i + 4 <= s.len() && s.subrange(i, i + 4) == "&lt;"@
    ||| i + 4 <= s.len() && s.subrange(i, i + 4) == "&gt;"@
    ||| i + 5 <= s.len() && s.subrange(i, i + 5) == "&amp;"@
    ||| i + 6 <= s.len() && s.subrange(i, i + 6) == "&quot;"@
    ||| i + 6 <= s.len() && s.subrange(i, i + 6) == "&apos;"@
}

/// Every ampersand of escaped text begins an escape entity: together with
/// `lemma_escape_safe`, escaped text cannot open or close markup.
pub proof fn lemma_escape_amp(s: Seq<char>)
    ensures
        forall|i: int|
            0 <= i < escape_seq(s).len() && #[trigger] escape_seq(s)[i] == '&' ==> entity_at(
                escape_seq(s),
                i,
            ),
    decreases s.len(),
{
    reveal_strlit("&lt;");
    reveal_strlit("&gt;");
    reveal_strlit("&amp;");
    reveal_strlit("&quot;");
    reveal_strlit("&apos;");
    if s.len() == 0 {
    } else {
        lemma_escape_amp(s.drop_last());
        let pre = escape_seq(s.drop_last());
        let tail = esc_char(s.last());
        let whole = escape_seq(s);
        assert(whole == pre + tail);
        assert forall|i: int| 0 <= i < whole.len() && #[trigger] whole[i] == '&' implies entity_at(
            whole,
            i,
        ) by {
            if i < pre.len() {
                assert(pre[i] == '&');
                assert(entity_at(pre, i));
                if i + 4 <= pre.len() && pre.subrange(i, i + 4) == "&lt;"@ {
                    assert(whole.subrange(i, i + 4) =~= pre.subrange(i, i + 4));
                } else if i + 4 <= pre.len() && pre.subrange(i, i + 4) == "&gt;"@ {
                    assert(whole.subrange(i, i + 4) =~= pre.subrange(i, i + 4));
                } else if i + 5 <= pre.len() && pre.subrange(i, i + 5) == "&amp;"@ {
                    assert(whole.subrange(i, i + 5) =~= pre.subrange(i, i + 5));
                } else if i + 6 <= pre.len() && pre.subrange(i, i + 6) == "&quot;"@ {
                    assert(whole.subrange(i, i + 6) =~= pre.subrange(i, i + 6));
                } else {
                    assert(i + 6 <= pre.len() && pre.subrange(i, i + 6) == "&apos;"@);
                    assert(whole.subrange(i, i + 6) =~= pre.subrange(i, i + 6));
                }
            } else {
                let j = i - pre.len();
                assert(whole[i] == tail[j]);
                if s.last() == '<' {
                    assert(j == 0);
                    assert(whole.subrange(i, i + 4) =~= tail);
                } else if s.last() == '>' {
                    assert(j == 0);
                    assert(whole.subrange(i, i + 4) =~= tail);
                } else if s.last() == '&' {
                    assert(j == 0);
                    assert(whole.subrange(i, i + 5) =~= tail);
                } else if s.last() == '"' {
                    assert(j == 0);
                    assert(whole.subrange(i, i + 6) =~= tail);
                } else if s.last() == '\'' {
                    assert(j == 0);
                    assert(whole.subrange(i, i + 6) =~= tail);
                } else {
                    assert(tail =~= seq![s.last()]);
                    assert(whole[i] != '&');
                }
            }
        }
    }
}

/// The marker attribute a feature contributes at the start of a line or
/// arc: nothing, or ` marker-start="url(#..)"`.
pub open spec fn marker_start_attr(f: Feature) -> Seq<char> {
    match marker_of(f) {
        None => Seq::empty(),
        Some(m) => " marker-start=\""@ + m + "\""@,
    }
}

/// The marker attribute a feature contributes at the end of a line or arc.
pub open spec fn marker_end_attr(f: Feature) -> Seq<char> {
    match marker_of(f) {
        None => Seq::empty(),
        Some(m) => " marker-end=\""@ + m + "\""@,
    }
}

/// The SVG node one element renders as. Coordinates are exact decimals:
/// a point's pixel position is its eighth-cell count times the cell size
/// over eight, and the renderer prints that value with no rounding.
pub open spec fn element_svg_spec(e: ElemV, tw: int, th: int) -> Seq<char> {
    match e {
        ElemV::Circle { center, radius } => "<circle class=\"fg_stroke no_fill\" cx=\""@
            + eighths_str(center.x * tw) + "\" cy=\""@ + eighths_str(center.y * th) + "\" r=\""@
            + eighths_str(radius * tw) + "\"/>"@,
        ElemV::Line { s, e, stroke, sf, ef } => (if stroke == Stroke::Dashed {
            "<line class=\"fg_stroke dashed\" x1=\""@
        } else {
            "<line class=\"fg_stroke\" x1=\""@
        }) + eighths_str(s.x * tw) + "\" y1=\""@ + eighths_str(s.y * th) + "\" x2=\""@
            + eighths_str(e.x * tw) + "\" y2=\""@ + eighths_str(e.y * th) + "\""@
            + marker_start_attr(sf) + marker_end_attr(ef) + "/>"@,
        ElemV::Arc { s, e, radius, flag, sweep, stroke, sf, ef } => "<path class=\"fg_stroke no_fill\" d=\"M "@
            + eighths_str(s.x * tw) + " "@ + eighths_str(s.y * th) + " A "@ + eighths_str(
            radius * tw,
        ) + " "@ + eighths_str(radius * tw) + (if flag == ArcFlag::Major {
            " 0 1 "@
        } else {
            " 0 0 "@
        }) + (if sweep {
            "1 "@
        } else {
            "0 "@
        }) + eighths_str(e.x * tw) + " "@ + eighths_str(e.y * th) + "\""@ + marker_start_attr(sf)
            + marker_end_attr(ef) + "/>"@,
        ElemV::Text { loc, text } => "<text class=\"fg_fill\" x=\""@ + eighths_str(
            8 * loc.x * tw + tw,
        ) + "\" y=\""@ + eighths_str(8 * loc.y * th + 6 * th) + "\">"@ + escape_seq(text)
            + "</text>"@,
    }
}

/// The SVG nodes of an element list, in order.
pub open spec fn elems_svg(es: Seq<ElemV>, tw: int, th: int) -> Seq<char>
    decreases es.len(),
{
    if es.len() == 0 {
        Seq::empty()
    } else {
        elems_svg(es.drop_last(), tw, th) + element_svg_spec(es.last(), tw, th)
    }
}

/// The document head: the root element sized to the grid, a style block,
/// and the six marker definitions.
pub open spec fn doc_head(w_px: int, h_px: int, fs: int, sw: int, ff: Seq<char>) -> Seq<char> {
    "<svg xmlns=\"http://www.w3.org/2000/svg\" width=\""@ + dec_digits(w_px) + "\" height=\""@
        + dec_digits(h_px) + "\">"@ + "<style>text{font-family:"@ + escape_seq(ff)
        + ";font-size:"@ + dec_digits(fs) + "px;}.fg_stroke{stroke:black;stroke-width:"@
        + dec_digits(sw) + ";}.fg_fill{fill:black;}.no_fill{fill:none;}.dashed{stroke-dasharray:3;}</style>"@
        + defs_str()
}

/// The marker definitions, fixed text.
pub open spec fn defs_str() -> Seq<char> {
    "<defs><marker id=\"triangle\" viewBox=\"0 0 8 4\" refX=\"4\" refY=\"2\" markerWidth=\"8\" markerHeight=\"8\" orient=\"auto\"><polygon points=\"0,0 0,4 8,2\" fill=\"black\"/></marker><marker id=\"clear_triangle\" viewBox=\"0 0 20 14\" refX=\"10\" refY=\"7\" markerWidth=\"10\" markerHeight=\"10\" orient=\"auto\"><polygon points=\"2,2 2,12 18,7\" fill=\"white\" stroke=\"black\"/></marker><marker id=\"circle\" viewBox=\"0 0 8 8\" refX=\"4\" refY=\"4\" markerWidth=\"8\" markerHeight=\"8\" orient=\"auto\"><circle cx=\"4\" cy=\"4\" r=\"3\" fill=\"black\"/></marker><marker id=\"square\" viewBox=\"0 0 8 8\" refX=\"4\" refY=\"4\" markerWidth=\"8\" markerHeight=\"8\" orient=\"auto\"><rect x=\"1\" y=\"1\" width=\"6\" height=\"6\" fill=\"black\"/></marker><marker id=\"open_circle\" viewBox=\"0 0 8 8\" refX=\"4\" refY=\"4\" markerWidth=\"8\" markerHeight=\"8\" orient=\"auto\"><circle cx=\"4\" cy=\"4\" r=\"3\" fill=\"white\" stroke=\"black\"/></marker><marker id=\"big_open_circle\" viewBox=\"0 0 16 16\" refX=\"8\" refY=\"8\" markerWidth=\"16\" markerHeight=\"16\" orient=\"auto\"><circle cx=\"8\" cy=\"8\" r=\"6\" fill=\"white\" stroke=\"black\"/></marker></defs>"@
}

/// The whole document: head, the reduced elements, and the closing tag.
/// Its width is `cols * text_width` pixels and its height is
/// `rows * text_height` pixels.
pub open spec fn svg_doc_spec(g: GridV, tw: int, th: int, fs: int, sw: int, ff: Seq<char>) -> Seq<
    char,
> {
    doc_head(grid_cols(g) * tw, g.len() * th, fs, sw, ff) + elems_svg(
        crate::order::sort_spec(
            crate::reducer::reduce_fix(
                crate::order::sort_spec(crate::passes::all_elements_spec(g)),
            ),
        ),
        tw,
        th,
    ) + "</svg>"@
}


/// Multiply a bounded coordinate by a cell size, exactly.
fn mul_coord(a: i128, b: i128) -> (r: i128)
    requires
        -0x100_0000_0000 <= a <= 0x100_0000_0000,
        0 <= b <= 0x1_0000_0000,
    ensures
        r == a * b,
        -0x1000_0000_0000_0000_0000 <= r <= 0x1000_0000_0000_0000_0000,
{
    proof {
        assert(a * b <= 0x100_0000_0000 * 0x1_0000_0000 && a * b >= -(0x100_0000_0000
            * 0x1_0000_0000)) by (nonlinear_arith)
            requires
                -0x100_0000_0000 <= a <= 0x100_0000_0000,
                0 <= b <= 0x1_0000_0000,
        ;
    }
    a * b
}

/// Multiply a grid extent by a cell size, exactly.
fn mul_extent(a: u128, b: u128) -> (r: u128)
    requires
        a <= 0x1_0000_0000,
        b <= 0x1_0000_0000,
    ensures
        r == a * b,
{
    proof {
        assert(a * b <= 0x1_0000_0000 * 0x1_0000_0000) by (nonlinear_arith)
            requires
                a <= 0x1_0000_0000,
                b <= 0x1_0000_0000,
        ;
    }
    a * b
}

/// Append a rendered circle.
#[verifier::rlimit(60)]
fn push_circle(out: &mut Vec<char>, center: &Point, radius: u32, tw: u32, th: u32)
    requires
        crate::geom::point_in_range(*center),
    ensures
        final(out)@ == old(out)@ + element_svg_spec(
            (ElemV::Circle { center: *center, radius: radius as int }),
            tw as int,
            th as int,
        ),
{
    let ghost pre = out@;
    push_str(out, "<circle class=\"fg_stroke no_fill\" cx=\"");
    push_eighths(out, mul_coord(center.x as i128, tw as i128));
    push_str(out, "\" cy=\"");
    push_eighths(out, mul_coord(center.y as i128, th as i128));
    push_str(out, "\" r=\"");
    push_eighths(out, mul_coord(radius as i128, tw as i128));
    push_str(out, "\"/>");
    proof {
        assert(out@ =~= pre + element_svg_spec(
            (ElemV::Circle { center: *center, radius: radius as int }),
            tw as int,
            th as int,
        ));
    }
}

/// Append a rendered line.
#[verifier::rlimit(60)]
fn push_line(
    out: &mut Vec<char>,
    s: &Point,
    e: &Point,
    stroke: Stroke,
    sf: Feature,
    ef: Feature,
    tw: u32,
    th: u32,
)
    requires
        crate::geom::point_in_range(*s),
        crate::geom::point_in_range(*e),
    ensures
        final(out)@ == old(out)@ + element_svg_spec(
            (ElemV::Line { s: *s, e: *e, stroke, sf, ef }),
            tw as int,
            th as int,
        ),
{
    let ghost pre = out@;
    if stroke == Stroke::Dashed {
        push_str(out, "<line class=\"fg_stroke dashed\" x1=\"");
    } else {
        push_str(out, "<line class=\"fg_stroke\" x1=\"");
    }
    push_eighths(out, mul_coord(s.x as i128, tw as i128));
    push_str(out, "\" y1=\"");
    push_eighths(out, mul_coord(s.y as i128, th as i128));
    push_str(out, "\" x2=\"");
    push_eighths(out, mul_coord(e.x as i128, tw as i128));
    push_str(out, "\" y2=\"");
    push_eighths(out, mul_coord(e.y as i128, th as i128));
    push_str(out, "\"");
    push_marker_start(out, &sf);
    push_marker_end(out, &ef);
    push_str(out, "/>");
    proof {
        assert(out@ =~= pre + element_svg_spec(
            (ElemV::Line { s: *s, e: *e, stroke, sf, ef }),
            tw as int,
            th as int,
        ));
    }
}

/// Append a rendered arc.
#[verifier::rlimit(100)]
#[verifier::spinoff_prover]
fn push_arc(
    out: &mut Vec<char>,
    s: &Point,
    e: &Point,
    radius: u32,
    flag: ArcFlag,
    sweep: bool,
    stroke: Stroke,
    sf: Feature,
    ef: Feature,
    tw: u32,
    th: u32,
)
    requires
        crate::geom::point_in_range(*s),
        crate::geom::point_in_range(*e),
    ensures
        final(out)@ == old(out)@ + element_svg_spec(
            (ElemV::Arc { s: *s, e: *e, radius: radius as int, flag, sweep, stroke, sf, ef }),
            tw as int,
            th as int,
        ),
{
    let ghost pre = out@;
    let ghost part1 = "<path class=\"fg_stroke no_fill\" d=\"M "@ + eighths_str(
        s.x * tw as int,
    ) + " "@ + eighths_str(s.y * th as int) + " A "@ + eighths_str(radius * tw as int);
    let ghost part2 = part1 + " "@ + eighths_str(radius * tw as int) + (if flag == ArcFlag::Major {
        " 0 1 "@
    } else {
        " 0 0 "@
    }) + (if sweep {
        "1 "@
    } else {
        "0 "@
    });
    let ghost part3 = part2 + eighths_str(e.x * tw as int) + " "@ + eighths_str(e.y * th as int)
        + "\""@;
    push_str(out, "<path class=\"fg_stroke no_fill\" d=\"M ");
    push_eighths(out, mul_coord(s.x as i128, tw as i128));
    push_str(out, " ");
    push_eighths(out, mul_coord(s.y as i128, th as i128));
    push_str(out, " A ");
    push_eighths(out, mul_coord(radius as i128, tw as i128));
    proof {
        assert(out@ =~= pre + part1);
    }
    push_str(out, " ");
    push_eighths(out, mul_coord(radius as i128, tw as i128));
    if flag == ArcFlag::Major {
        push_str(out, " 0 1 ");
    } else {
        push_str(out, " 0 0 ");
    }
    if sweep {
        push_str(out, "1 ");
    } else {
        push_str(out, "0 ");
    }
    proof {
        assert(out@ =~= pre + part2);
    }
    push_eighths(out, mul_coord(e.x as i128, tw as i128));
    push_str(out, " ");
    push_eighths(out, mul_coord(e.y as i128, th as i128));
    push_str(out, "\"");
    proof {
        assert(out@ =~= pre + part3);
    }
    push_marker_start(out, &sf);
    push_marker_end(out, &ef);
    push_str(out, "/>");
    proof {
        assert(out@ =~= pre + (part3 + marker_start_attr(sf) + marker_end_attr(ef) + "/>"@));
        assert(element_svg_spec(
            (ElemV::Arc { s: *s, e: *e, radius: radius as int, flag, sweep, stroke, sf, ef }),
            tw as int,
            th as int,
        ) == part3 + marker_start_attr(sf) + marker_end_attr(ef) + "/>"@);
    }
}

/// Append a rendered text run.
#[verifier::rlimit(60)]
fn push_text(out: &mut Vec<char>, loc: &Loc, t: &String, tw: u32, th: u32)
    requires
        crate::geom::loc_in_range(*loc),
    ensures
        final(out)@ == old(out)@ + element_svg_spec(
            (ElemV::Text { loc: *loc, text: t@ }),
            tw as int,
            th as int,
        ),
{
    let ghost pre = out@;
    push_str(out, "<text class=\"fg_fill\" x=\"");
    push_eighths(out, mul_coord(8 * loc.x as i128, tw as i128) + tw as i128);
    push_str(out, "\" y=\"");
    push_eighths(out, mul_coord(8 * loc.y as i128, th as i128) + 6 * th as i128);
    push_str(out, "\">");
    push_escaped(out, t.as_str());
    push_str(out, "</text>");
    proof {
        assert(out@ =~= pre + element_svg_spec(
            (ElemV::Text { loc: *loc, text: t@ }),
            tw as int,
            th as int,
        ));
    }
}

/// Append one rendered element.
fn push_element(out: &mut Vec<char>, e: &Element, tw: u32, th: u32)
    requires
        wf_elem(e@),
    ensures
        final(out)@ == old(out)@ + element_svg_spec(e@, tw as int, th as int),
{
    match e {
        Element::Circle(center, radius) => push_circle(out, center, *radius, tw, th),
        Element::Line(s, ep, stroke, sf, ef) => push_line(out, s, ep, *stroke, *sf, *ef, tw, th),
        Element::Arc(s, ep, radius, flag, sweep, stroke, sf, ef) => push_arc(
            out,
            s,
            ep,
            *radius,
            *flag,
            *sweep,
            *stroke,
            *sf,
            *ef,
            tw,
            th,
        ),
        Element::Text(loc, t) => push_text(out, loc, t, tw, th),
    }
}

/// Append the start marker attribute of a feature.
fn push_marker_start(out: &mut Vec<char>, f: &Feature)
    ensures
        final(out)@ == old(out)@ + marker_start_attr(*f),
{
    match f.get_marker() {
        None => {},
        Some(m) => {
            push_str(out, " marker-start=\"");
            push_str(out, m);
            push_str(out, "\"");
            proof {
                assert(out@ =~= old(out)@ + marker_start_attr(*f));
            }
        },
    }
}

/// Append the end marker attribute of a feature.
fn push_marker_end(out: &mut Vec<char>, f: &Feature)
    ensures
        final(out)@ == old(out)@ + marker_end_attr(*f),
{
    match f.get_marker() {
        None => {},
        Some(m) => {
            push_str(out, " marker-end=\"");
            push_str(out, m);
            push_str(out, "\"");
            proof {
                assert(out@ =~= old(out)@ + marker_end_attr(*f));
            }
        },
    }
}

/// Rendering one element on its own.
impl Element {
    /// The SVG node this element renders as under the given settings.
    pub fn to_svg(&self, settings: &Settings) -> (r: String)
        requires
            wf_elem(self@),
        ensures
            r@ == element_svg_spec(
                self@,
                settings.text_width as int,
                settings.text_height as int,
            ),
    {
        let mut out: Vec<char> = Vec::new();
        push_element(&mut out, self, settings.text_width, settings.text_height);
        crate::unicode::chars_to_string(out)
    }
}

/// Render the whole document of a grid.
impl crate::grid::Grid {
    /// The SVG document of this grid: the sized root, the style and marker
    /// definitions, then every element after exhaustive reduction.
    pub fn get_svg(&self) -> (r: String)
        requires
            self.wf(),
        ensures
            r@ == svg_doc_spec(
                self@,
                self.settings.text_width as int,
                self.settings.text_height as int,
                self.settings.font_size as int,
                self.settings.stroke_width as int,
                self.settings.font_family@,
            ),
    {
        let ghost gv = self@;
        let tw = self.settings.text_width;
        let th = self.settings.text_height;
        let mut elems = crate::passes::all_elements(self);
        proof {
            crate::order::lemma_sort_wf(crate::reducer::elems_view(elems@));
        }
        crate::order::sort_elements(&mut elems);
        crate::reducer::reduce_all(&mut elems);
        proof {
            crate::order::lemma_sort_wf(crate::reducer::elems_view(elems@));
        }
        crate::order::sort_elements(&mut elems);
        let mut out: Vec<char> = Vec::new();
        push_str(&mut out, "<svg xmlns=\"http://www.w3.org/2000/svg\" width=\"");
        let cols = self.cols();
        let rows = self.row_count();
        proof {
            crate::grid::lemma_grid_cols_bound(gv, gv.len() as int);
        }
        push_dec(&mut out, mul_extent(cols as u128, tw as u128));
        push_str(&mut out, "\" height=\"");
        push_dec(&mut out, mul_extent(rows as u128, th as u128));
        push_str(&mut out, "\">");
        push_str(&mut out, "<style>text{font-family:");
        push_escaped(&mut out, self.settings.font_family.as_str());
        push_str(&mut out, ";font-size:");
        push_dec(&mut out, self.settings.font_size as u128);
        push_str(&mut out, "px;}.fg_stroke{stroke:black;stroke-width:");
        push_dec(&mut out, self.settings.stroke_width as u128);
        push_str(
            &mut out,
            ";}.fg_fill{fill:black;}.no_fill{fill:none;}.dashed{stroke-dasharray:3;}</style>",
        );
        push_str(
            &mut out,
            "<defs><marker id=\"triangle\" viewBox=\"0 0 8 4\" refX=\"4\" refY=\"2\" markerWidth=\"8\" markerHeight=\"8\" orient=\"auto\"><polygon points=\"0,0 0,4 8,2\" fill=\"black\"/></marker><marker id=\"clear_triangle\" viewBox=\"0 0 20 14\" refX=\"10\" refY=\"7\" markerWidth=\"10\" markerHeight=\"10\" orient=\"auto\"><polygon points=\"2,2 2,12 18,7\" fill=\"white\" stroke=\"black\"/></marker><marker id=\"circle\" viewBox=\"0 0 8 8\" refX=\"4\" refY=\"4\" markerWidth=\"8\" markerHeight=\"8\" orient=\"auto\"><circle cx=\"4\" cy=\"4\" r=\"3\" fill=\"black\"/></marker><marker id=\"square\" viewBox=\"0 0 8 8\" refX=\"4\" refY=\"4\" markerWidth=\"8\" markerHeight=\"8\" orient=\"auto\"><rect x=\"1\" y=\"1\" width=\"6\" height=\"6\" fill=\"black\"/></marker><marker id=\"open_circle\" viewBox=\"0 0 8 8\" refX=\"4\" refY=\"4\" markerWidth=\"8\" markerHeight=\"8\" orient=\"auto\"><circle cx=\"4\" cy=\"4\" r=\"3\" fill=\"white\" stroke=\"black\"/></marker><marker id=\"big_open_circle\" viewBox=\"0 0 16 16\" refX=\"8\" refY=\"8\" markerWidth=\"16\" markerHeight=\"16\" orient=\"auto\"><circle cx=\"8\" cy=\"8\" r=\"6\" fill=\"white\" stroke=\"black\"/></marker></defs>",
        );
        proof {
            assert(out@ =~= doc_head(
                grid_cols(gv) * tw as int,
                gv.len() * th as int,
                self.settings.font_size as int,
                self.settings.stroke_width as int,
                self.settings.font_family@,
            ));
        }
        let ghost reduced = crate::order::sort_spec(
            crate::reducer::reduce_fix(
                crate::order::sort_spec(crate::passes::all_elements_spec(gv)),
            ),
        );
        let ghost head = out@;
        let n = elems.len();
        let mut i: usize = 0;
        while i < n
            invariant
                0 <= i <= n,
                n == elems@.len(),
                crate::reducer::elems_view(elems@) == reduced,
                crate::reducer::all_wf(reduced),
                tw == self.settings.text_width,
                th == self.settings.text_height,
                out@ == head + elems_svg(reduced.subrange(0, i as int), tw as int, th as int),
            decreases n - i,
        {
            proof {
                assert(wf_elem(elems@[i as int]@)) by {
                    assert(crate::reducer::elems_view(elems@)[i as int] == elems@[i as int]@);
                }
            }
            push_element(&mut out, &elems[i], tw, th);
            proof {
                assert(reduced.subrange(0, i + 1 as int).drop_last() =~= reduced.subrange(
                    0,
                    i as int,
                ));
                assert(reduced.subrange(0, i + 1 as int).last() == elems@[i as int]@);
                assert(out@ =~= head + elems_svg(
                    reduced.subrange(0, i + 1 as int),
                    tw as int,
                    th as int,
                ));
            }
            i = i + 1;
        }
        push_str(&mut out, "</svg>");
        proof {
            assert(reduced.subrange(0, n as int) =~= reduced);
            assert(out@ =~= svg_doc_spec(
                gv,
                tw as int,
                th as int,
                self.settings.font_size as int,
                self.settings.stroke_width as int,
                self.settings.font_family@,
            ));
        }
        crate::unicode::chars_to_string(out)
    }
}

/// Convert input text straight to its SVG document under the given
/// settings: exactly the document of the parsed grid.
pub fn to_svg(input: &str, settings: &Settings) -> (r: String)
    requires
        input@.len() < 0x2000_0000,
    ensures
        r@ == svg_doc_spec(
            crate::grid::grid_of(input@),
            settings.text_width as int,
            settings.text_height as int,
            settings.font_size as int,
            settings.stroke_width as int,
            settings.font_family@,
        ),
{
    let g = crate::grid::Grid::from_str(input, settings);
    g.get_svg()
}

} // verus!
