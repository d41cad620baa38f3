use svgbob::grid::Grid;
use svgbob::settings::Settings;
use svgbob::svg::to_svg;

#[test]
fn empty_input_gives_empty_document() {
    let settings = Settings::default();
    let doc = to_svg("", &settings);
    assert!(doc.starts_with("<svg xmlns=\"http://www.w3.org/2000/svg\" width=\"0\" height=\"0\">"));
    assert!(doc.ends_with("</svg>"));
    assert!(!doc.contains("<line"));
    assert!(!doc.contains("<path"));
    assert!(!doc.contains("<circle class"));
    assert!(!doc.contains("<text"));
}

#[test]
fn spaces_give_no_drawing_elements() {
    let settings = Settings::default();
    let doc = to_svg("   \n   ", &settings);
    assert!(doc.contains("width=\"24\""));
    assert!(doc.contains("height=\"32\""));
    assert!(!doc.contains("<line"));
    assert!(!doc.contains("<path class"));
    assert!(!doc.contains("<circle class"));
    assert!(!doc.contains("<text"));
}

#[test]
fn document_is_sized_by_grid_extent() {
    let settings = Settings::default();
    let grid = Grid::from_str("----\n--", &settings);
    let doc = grid.get_svg();
    // four columns of eight pixels, two rows of sixteen pixels
    assert!(doc.contains("width=\"32\""), "{}", doc);
    assert!(doc.contains("height=\"32\""), "{}", doc);
}

#[test]
fn line_coordinates_are_exact_decimals() {
    let settings = Settings::default();
    let grid = Grid::from_str("---", &settings);
    let doc = grid.get_svg();
    // the merged line runs from the left edge mid-height to the right edge:
    // x from 0 to 24 eighth-cells is 0 to 24 pixels at default width,
    // y of 4 eighth-cells is 8 pixels at default height
    assert!(
        doc.contains("<line class=\"fg_stroke\" x1=\"0\" y1=\"8\" x2=\"24\" y2=\"8\"/>"),
        "{}",
        doc
    );
}

#[test]
fn scaling_doubles_every_coordinate() {
    let settings = Settings::default();
    let grid = Grid::from_str("---", &settings);
    let doc1 = grid.get_svg();
    let mut doubled = Settings::default();
    doubled.scale(2);
    let grid2 = Grid::from_str("---", &doubled);
    let doc2 = grid2.get_svg();
    assert!(doc1.contains("width=\"24\" height=\"16\""), "{}", doc1);
    assert!(doc2.contains("width=\"48\" height=\"32\""), "{}", doc2);
    assert!(doc1.contains("x1=\"0\" y1=\"8\" x2=\"24\" y2=\"8\""), "{}", doc1);
    assert!(doc2.contains("x1=\"0\" y1=\"16\" x2=\"48\" y2=\"16\""), "{}", doc2);
}

#[test]
fn text_content_is_escaped() {
    let settings = Settings::default();
    let grid = Grid::from_str("a&b", &settings);
    let doc = grid.get_svg();
    assert!(doc.contains(">a&amp;b</text>"), "{}", doc);
}

#[test]
fn arrow_line_carries_a_marker() {
    let settings = Settings::default();
    let grid = Grid::from_str("-->", &settings);
    let doc = grid.get_svg();
    assert!(doc.contains("marker-end=\"url(#triangle)\""), "{}", doc);
    assert!(!doc.contains("marker-start"), "{}", doc);
}

#[test]
fn markers_are_defined_once_in_defs() {
    let settings = Settings::default();
    let doc = to_svg("", &settings);
    for id in [
        "id=\"triangle\"",
        "id=\"clear_triangle\"",
        "id=\"circle\"",
        "id=\"square\"",
        "id=\"open_circle\"",
        "id=\"big_open_circle\"",
    ] {
        assert_eq!(doc.matches(id).count(), 1, "{}", id);
    }
}

#[test]
fn odd_cell_size_renders_fractional_pixels() {
    let mut settings = Settings::default();
    settings.text_width = 9;
    let grid = Grid::from_str("-", &settings);
    let doc = grid.get_svg();
    // the line's right end sits at 8 eighth-cells: 8 * 9 / 8 = 9 pixels;
    // its left end at 0; mid-height y = 4 * 16 / 8 = 8
    assert!(doc.contains("x1=\"0\" y1=\"8\" x2=\"9\" y2=\"8\""), "{}", doc);
}

#[test]
fn half_pixel_coordinates_print_exactly() {
    let mut settings = Settings::default();
    settings.text_width = 4;
    let grid = Grid::from_str("-", &settings);
    let doc = grid.get_svg();
    // right end at 8 eighth-cells of a 4 pixel cell: exactly 4 pixels;
    // the dash's own left end is 0
    assert!(doc.contains("x2=\"4\""), "{}", doc);
    let mut s2 = Settings::default();
    s2.text_width = 1;
    let g2 = Grid::from_str("--", &s2);
    let d2 = g2.get_svg();
    // right-centre of column 1 at 16 eighth-cells of a 1 pixel cell: 2 px,
    // and the merged line's quarter positions land on eighths
    assert!(d2.contains("x2=\"2\""), "{}", d2);
}
