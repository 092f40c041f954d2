use embedded_graphics::ellipse::{size_to_threshold, Ellipse, Points, StyledEllipseIterator};
use embedded_graphics::geometry::{Point, Size};
use embedded_graphics::rectangle::Rectangle;
use embedded_graphics::style::{Pixel, PrimitiveStyle, Styled};

#[derive(Copy, Clone, PartialEq, Eq, Debug)]
enum BinaryColor {
    Off,
    On,
}

const SIDE: usize = 64;

/// A small raster that records what was drawn where.
#[derive(Clone, PartialEq, Eq)]
struct MockDisplay {
    cells: Vec<Option<BinaryColor>>,
}

impl std::fmt::Debug for MockDisplay {
    fn fmt(&self, f: &mut std::fmt::Formatter<'_>) -> std::fmt::Result {
        for row in self.cells.chunks(SIDE) {
            let line: String = row
                .iter()
                .map(|c| match c {
                    None => ' ',
                    Some(BinaryColor::On) => '#',
                    Some(BinaryColor::Off) => '.',
                })
                .collect();
            f.write_str(line.trim_end())?;
            f.write_str("\n")?;
        }
        Ok(())
    }
}

impl MockDisplay {
    fn new() -> Self {
        MockDisplay { cells: vec![None; SIDE * SIDE] }
    }

    fn from_pattern(pattern: &[&str]) -> Self {
        let mut display = MockDisplay::new();
        for (y, row) in pattern.iter().enumerate() {
            for (x, c) in row.chars().enumerate() {
                let color = match c {
                    ' ' => None,
                    '#' => Some(BinaryColor::On),
                    '.' => Some(BinaryColor::Off),
                    _ => panic!("unexpected character in pattern"),
                };
                display.cells[y * SIDE + x] = color;
            }
        }
        display
    }

    fn draw_pixel(&mut self, pixel: Pixel<BinaryColor>) {
        let Pixel(Point { x, y }, color) = pixel;
        assert!(x >= 0 && y >= 0 && (x as usize) < SIDE && (y as usize) < SIDE);
        let cell = &mut self.cells[y as usize * SIDE + x as usize];
        assert!(cell.is_none(), "pixel ({}, {}) drawn twice", x, y);
        *cell = Some(color);
    }

    fn draw_all(&mut self, pixels: &[Pixel<BinaryColor>]) {
        for p in pixels {
            self.draw_pixel(*p);
        }
    }
}

fn collect_points(mut it: Points) -> Vec<Point> {
    let mut out = Vec::new();
    while let Some(p) = it.next() {
        out.push(p);
    }
    out
}

fn collect_pixels(mut it: StyledEllipseIterator<BinaryColor>) -> Vec<Pixel<BinaryColor>> {
    let mut out = Vec::new();
    while let Some(p) = it.next() {
        out.push(p);
    }
    out
}

fn rectangle_points(r: Rectangle) -> Vec<Point> {
    let mut it = r.points();
    let mut out = Vec::new();
    while let Some(p) = it.next() {
        out.push(p);
    }
    out
}

fn styled_pixels(ellipse: Ellipse, style: PrimitiveStyle<BinaryColor>) -> Vec<Pixel<BinaryColor>> {
    collect_pixels(Styled::new(ellipse, style).into_iter())
}

fn stroke_and_fill(stroke: BinaryColor, width: u32, fill: BinaryColor) -> PrimitiveStyle<BinaryColor> {
    PrimitiveStyle { stroke_color: Some(stroke), stroke_width: width, fill_color: Some(fill) }
}

// The circle rasterizer that square ellipses are held against.

fn circle_threshold(diameter: u32) -> i64 {
    let d = diameter as i64;
    if diameter <= 4 {
        d * d - d / 2
    } else {
        d * d
    }
}

fn circle_distance(top_left: Point, diameter: u32, p: Point) -> i64 {
    let radius = diameter.saturating_sub(1) as i64;
    let dx = top_left.x as i64 * 2 + radius - p.x as i64 * 2;
    let dy = top_left.y as i64 * 2 + radius - p.y as i64 * 2;
    dx * dx + dy * dy
}

fn circle_points(top_left: Point, diameter: u32) -> Vec<Point> {
    rectangle_points(Rectangle::new(top_left, Size::new(diameter, diameter)))
        .into_iter()
        .filter(|p| circle_distance(top_left, diameter, *p) < circle_threshold(diameter))
        .collect()
}

fn circle_pixels(
    top_left: Point,
    diameter: u32,
    style: PrimitiveStyle<BinaryColor>,
) -> Vec<Pixel<BinaryColor>> {
    let stroke_width = if style.stroke_color.is_some() { style.stroke_width } else { 0 };
    let inner_threshold = circle_threshold(diameter.saturating_sub(2 * stroke_width));
    let outer_threshold = circle_threshold(diameter);
    let mut out = Vec::new();
    for p in rectangle_points(Rectangle::new(top_left, Size::new(diameter, diameter))) {
        let distance = circle_distance(top_left, diameter, p);
        let color = if distance < inner_threshold {
            style.fill_color
        } else if distance < outer_threshold {
            style.stroke_color
        } else {
            None
        };
        if let Some(color) = color {
            out.push(Pixel(p, color));
        }
    }
    out
}

fn test_ellipse(size: Size, style: PrimitiveStyle<BinaryColor>, pattern: &[&str]) {
    let mut display = MockDisplay::new();
    display.draw_all(&styled_pixels(Ellipse::new(Point::new(0, 0), size), style));
    assert_eq!(display, MockDisplay::from_pattern(pattern));
}

fn test_circles(style: PrimitiveStyle<BinaryColor>) {
    for diameter in 1..50 {
        let mut expected = MockDisplay::new();
        expected.draw_all(&circle_pixels(Point::new(0, 0), diameter, style));

        let mut display = MockDisplay::new();
        display.draw_all(&styled_pixels(
            Ellipse::new(Point::new(0, 0), Size::new(diameter, diameter)),
            style,
        ));

        assert_eq!(display, expected, "diameter = {}", diameter);
    }
}

#[test]
fn contains() {
    let mut expected = MockDisplay::new();
    let ellipse = Ellipse::new(Point::zero(), Size::new(40, 20));

    let mut display = MockDisplay::new();

    for p in rectangle_points(Rectangle::new(Point::zero(), Size::new(40, 20))) {
        if ellipse.contains(p) {
            display.draw_pixel(Pixel(p, BinaryColor::On));
        }
    }

    for p in collect_points(ellipse.points()) {
        expected.draw_pixel(Pixel(p, BinaryColor::On));
    }

    assert_eq!(display, expected);
}

#[test]
fn circles_points() {
    for diameter in 1..50 {
        let circle_points = circle_points(Point::new(0, 0), diameter);

        let ellipse_points =
            collect_points(Ellipse::new(Point::new(0, 0), Size::new(diameter, diameter)).points());

        assert!(circle_points == ellipse_points, "diameter = {}", diameter);
    }
}

#[test]
fn ellipse_equals_circle_fill() {
    test_circles(PrimitiveStyle::with_fill(BinaryColor::On));
}

#[test]
fn ellipse_equals_circle_stroke_1px() {
    test_circles(PrimitiveStyle::with_stroke(BinaryColor::On, 1));
}

#[test]
fn ellipse_equals_circle_stroke_10px() {
    test_circles(PrimitiveStyle::with_stroke(BinaryColor::On, 10));
}

#[test]
fn filled_ellipse() {
    test_ellipse(
        Size::new(20, 10),
        PrimitiveStyle::with_fill(BinaryColor::On),
        &[
            "      ########      ",
            "   ##############   ",
            " ################## ",
            "####################",
            "####################",
            "####################",
            "####################",
            " ################## ",
            "   ##############   ",
            "      ########      ",
        ],
    );
}

#[test]
fn thin_stroked_ellipse() {
    test_ellipse(
        Size::new(20, 10),
        PrimitiveStyle::with_stroke(BinaryColor::On, 1),
        &[
            "      ########      ",
            "   ###        ###   ",
            " ##              ## ",
            "##                ##",
            "#                  #",
            "#                  #",
            "##                ##",
            " ##              ## ",
            "   ###        ###   ",
            "      ########      ",
        ],
    );
}

#[test]
fn fill_and_stroke() {
    test_ellipse(
        Size::new(20, 10),
        stroke_and_fill(BinaryColor::Off, 3, BinaryColor::On),
        &[
            "      ........      ",
            "   ..............   ",
            " .................. ",
            ".....##########.....",
            "...##############...",
            "...##############...",
            ".....##########.....",
            " .................. ",
            "   ..............   ",
            "      ........      ",
        ],
    );
}

#[test]
fn filled_ellipse_row_widths() {
    let pixels = styled_pixels(
        Ellipse::new(Point::new(0, 0), Size::new(20, 10)),
        PrimitiveStyle::with_fill(BinaryColor::On),
    );
    let expected = [8usize, 14, 18, 20, 20, 20, 20, 18, 14, 8];
    for (y, width) in expected.iter().enumerate() {
        let row: Vec<i32> = pixels.iter().filter(|p| p.0.y == y as i32).map(|p| p.0.x).collect();
        assert_eq!(row.len(), *width);
        let left = (20 - *width as i32) / 2;
        assert_eq!(row, (left..left + *width as i32).collect::<Vec<i32>>());
    }
    assert_eq!(pixels.len(), 160);
    assert!(pixels.iter().all(|p| p.1 == BinaryColor::On));
}

#[test]
fn contains_agrees_with_points_off_origin() {
    let ellipse = Ellipse::new(Point::new(-7, 3), Size::new(9, 14));
    let points = collect_points(ellipse.points());
    let mut expected = Vec::new();
    for p in rectangle_points(ellipse.bounding_box()) {
        let listed = points.contains(&p);
        assert_eq!(ellipse.contains(p), listed);
        if listed {
            expected.push(p);
        }
    }
    assert_eq!(points, expected);
    assert!(!points.is_empty());
}

#[test]
fn contains_rejects_points_outside_the_box() {
    let ellipse = Ellipse::new(Point::new(0, 0), Size::new(20, 10));
    assert!(!ellipse.contains(Point::new(-1, 5)));
    assert!(!ellipse.contains(Point::new(20, 5)));
    assert!(!ellipse.contains(Point::new(10, -1)));
    assert!(!ellipse.contains(Point::new(10, 10)));
    assert!(!ellipse.contains(Point::new(1_000_000, -1_000_000)));
    assert!(ellipse.contains(Point::new(10, 5)));
    assert!(!ellipse.contains(Point::new(0, 0)));
    assert!(ellipse.contains(Point::new(0, 3)));
}

#[test]
fn small_circles_use_the_reduced_threshold() {
    let points = |d: u32| collect_points(Ellipse::new(Point::zero(), Size::new(d, d)).points());
    assert_eq!(points(1), vec![Point::new(0, 0)]);
    assert_eq!(
        points(2),
        vec![Point::new(0, 0), Point::new(1, 0), Point::new(0, 1), Point::new(1, 1)]
    );
    assert_eq!(
        points(3),
        vec![
            Point::new(1, 0),
            Point::new(0, 1),
            Point::new(1, 1),
            Point::new(2, 1),
            Point::new(1, 2)
        ]
    );
    assert_eq!(points(4).len(), 12);
    assert_eq!(points(5).len(), 21);
}

#[test]
fn size_to_threshold_values() {
    // Circle of diameter 3: threshold 9 - 1 = 8.
    assert!(size_to_threshold(Size::new(9, 9), Point::new(0, 2), 3));
    assert!(!size_to_threshold(Size::new(9, 9), Point::new(2, 2), 3));
    // Circle of diameter 4: threshold 16 - 2 = 14.
    assert!(size_to_threshold(Size::new(16, 16), Point::new(3, 2), 4));
    assert!(!size_to_threshold(Size::new(16, 16), Point::new(3, 3), 4));
    // Circle of diameter 5: threshold 25, and the comparison is strict.
    assert!(size_to_threshold(Size::new(25, 25), Point::new(4, 2), 5));
    assert!(!size_to_threshold(Size::new(25, 25), Point::new(4, 3), 5));
    assert!(!size_to_threshold(Size::new(25, 25), Point::new(5, 0), 5));
    // Ellipse 20 x 10: 100 x^2 + 400 y^2 <= 40000, border included.
    assert!(size_to_threshold(Size::new(400, 100), Point::new(20, 0), 20));
    assert!(!size_to_threshold(Size::new(400, 100), Point::new(21, 0), 20));
    assert!(size_to_threshold(Size::new(400, 100), Point::new(0, -10), 20));
    assert!(size_to_threshold(Size::new(400, 100), Point::new(12, 8), 20));
    assert!(!size_to_threshold(Size::new(400, 100), Point::new(13, 8), 20));
    // No width at all: a circle of diameter 0 holds nothing.
    assert!(!size_to_threshold(Size::new(0, 0), Point::new(0, 0), 0));
    // Far away points do not overflow.
    assert!(!size_to_threshold(
        Size::new(u32::MAX, u32::MAX - 1),
        Point::new(i32::MIN, i32::MAX),
        65535
    ));
}

#[test]
fn zero_size_ellipses_are_empty() {
    for size in [Size::new(0, 0), Size::new(0, 7), Size::new(7, 0)] {
        let ellipse = Ellipse::new(Point::new(3, 4), size);
        assert_eq!(collect_points(ellipse.points()), vec![]);
        assert_eq!(styled_pixels(ellipse, PrimitiveStyle::with_fill(BinaryColor::On)), vec![]);
        assert_eq!(styled_pixels(ellipse, PrimitiveStyle::with_stroke(BinaryColor::On, 2)), vec![]);
        assert_eq!(styled_pixels(ellipse, stroke_and_fill(BinaryColor::Off, 1, BinaryColor::On)), vec![]);
    }
    assert_eq!(collect_points(Points::empty()), vec![]);
}

#[test]
fn transparent_style_gives_no_pixels() {
    let ellipse = Ellipse::new(Point::new(0, 0), Size::new(20, 10));
    let style: PrimitiveStyle<BinaryColor> =
        PrimitiveStyle { stroke_color: None, stroke_width: 3, fill_color: None };
    assert!(style.is_transparent());
    assert_eq!(styled_pixels(ellipse, style), vec![]);
}

#[test]
fn stroke_width_counts_only_with_a_stroke_color() {
    let ellipse = Ellipse::new(Point::new(0, 0), Size::new(20, 10));
    let style = PrimitiveStyle { stroke_color: None, stroke_width: 3, fill_color: Some(BinaryColor::On) };
    assert_eq!(style.effective_stroke_width(), 0);
    assert_eq!(PrimitiveStyle::with_stroke(BinaryColor::On, 3).effective_stroke_width(), 3);
    assert_eq!(styled_pixels(ellipse, style), styled_pixels(ellipse, PrimitiveStyle::with_fill(BinaryColor::On)));
}

#[test]
fn stroke_color_without_width_paints_nothing() {
    let ellipse = Ellipse::new(Point::new(0, 0), Size::new(20, 10));
    assert_eq!(styled_pixels(ellipse, PrimitiveStyle::with_stroke(BinaryColor::On, 0)), vec![]);
}

#[test]
fn oversized_stroke_saturates() {
    let ellipse = Ellipse::new(Point::new(0, 0), Size::new(20, 10));
    let filled = styled_pixels(ellipse, PrimitiveStyle::with_fill(BinaryColor::Off));
    for width in [10, 11, 1000, 0x8000_0000, u32::MAX] {
        let pixels = styled_pixels(ellipse, stroke_and_fill(BinaryColor::Off, width, BinaryColor::On));
        assert_eq!(pixels, filled, "width = {}", width);
    }
}

#[test]
fn next_stays_exhausted() {
    let mut it = Ellipse::new(Point::zero(), Size::new(1, 1)).points();
    assert_eq!(it.next(), Some(Point::new(0, 0)));
    assert_eq!(it.next(), None);
    assert_eq!(it.next(), None);
    let mut styled = Styled::new(
        Ellipse::new(Point::zero(), Size::new(1, 1)),
        PrimitiveStyle::with_fill(BinaryColor::On),
    )
    .into_iter();
    assert_eq!(styled.next(), Some(Pixel(Point::new(0, 0), BinaryColor::On)));
    assert_eq!(styled.next(), None);
    assert_eq!(styled.next(), None);
}

#[test]
fn with_center_and_center() {
    let odd = Ellipse::with_center(Point::new(10, 20), Size::new(5, 9));
    assert_eq!(odd, Ellipse::new(Point::new(8, 16), Size::new(5, 9)));
    assert_eq!(odd.center(), Point::new(10, 20));
    assert_eq!(odd.center_2x(), Point::new(20, 40));

    let even = Ellipse::with_center(Point::new(10, 20), Size::new(6, 10));
    assert_eq!(even, Ellipse::new(Point::new(8, 16), Size::new(6, 10)));
    assert_eq!(even.center(), Point::new(10, 20));
    assert_eq!(even.center_2x(), Point::new(21, 41));

    let empty = Ellipse::with_center(Point::new(-3, 4), Size::new(0, 1));
    assert_eq!(empty, Ellipse::new(Point::new(-3, 4), Size::new(0, 1)));
    assert_eq!(empty.center(), Point::new(-3, 4));
    assert_eq!(empty.center_2x(), Point::new(-6, 8));
}

#[test]
fn translate_moves_the_top_left_corner() {
    let ellipse = Ellipse::new(Point::new(5, 10), Size::new(10, 15));
    let moved = ellipse.translate(Point::new(10, 10));
    assert_eq!(moved.top_left, Point::new(15, 20));
    assert_eq!(moved.size, Size::new(10, 15));
    assert_eq!(ellipse.top_left, Point::new(5, 10));

    let mut ellipse = Ellipse::new(Point::new(5, 10), Size::new(10, 15));
    ellipse.translate_mut(Point::new(-10, 10));
    assert_eq!(ellipse, Ellipse::new(Point::new(-5, 20), Size::new(10, 15)));
}

#[test]
fn translated_ellipse_has_translated_points() {
    let ellipse = Ellipse::new(Point::new(0, 0), Size::new(7, 4));
    let moved = ellipse.translate(Point::new(-3, 11));
    let expected: Vec<Point> = collect_points(ellipse.points())
        .into_iter()
        .map(|p| Point::new(p.x - 3, p.y + 11))
        .collect();
    assert_eq!(collect_points(moved.points()), expected);
}

#[test]
fn rectangle_points_are_row_major() {
    let points = rectangle_points(Rectangle::new(Point::new(-1, 2), Size::new(3, 2)));
    assert_eq!(
        points,
        vec![
            Point::new(-1, 2),
            Point::new(0, 2),
            Point::new(1, 2),
            Point::new(-1, 3),
            Point::new(0, 3),
            Point::new(1, 3)
        ]
    );
    assert_eq!(rectangle_points(Rectangle::new(Point::new(5, 5), Size::new(0, 3))), vec![]);
    assert_eq!(rectangle_points(Rectangle::new(Point::new(5, 5), Size::new(3, 0))), vec![]);
    assert_eq!(Rectangle::new(Point::new(2, 3), Size::new(4, 5)).center(), Point::new(3, 5));
}

#[test]
fn size_saturating_sub_clamps() {
    assert_eq!(Size::new(5, 1).saturating_sub(Size::new(2, 2)), Size::new(3, 0));
    assert_eq!(Size::zero().saturating_sub(Size::new(1, 1)), Size::zero());
}

#[test]
fn safe_range_is_recognised() {
    assert!(Ellipse::new(Point::new(0, 0), Size::new(20, 10)).is_well_formed());
    assert!(Ellipse::new(Point::new(-0x1000_0000, 0), Size::new(0xFFFF, 0xFFFF)).is_well_formed());
    assert!(!Ellipse::new(Point::new(0, 0), Size::new(0x1_0000, 10)).is_well_formed());
    assert!(!Ellipse::new(Point::new(0, 0), Size::new(10, 0x1_0000)).is_well_formed());
    assert!(!Ellipse::new(Point::new(0x1000_0000, 0), Size::new(1, 1)).is_well_formed());
    assert!(!Ellipse::new(Point::new(0, -0x1000_0001), Size::new(1, 1)).is_well_formed());
    assert!(Ellipse::new(Point::new(0x0FFF_FFFF, 0), Size::new(1, 1)).is_well_formed());
    assert!(Point::new(0x1000_0000, -0x1000_0000).is_in_range());
    assert!(!Point::new(0x1000_0001, 0).is_in_range());
}

#[test]
fn ellipse_at_the_edge_of_the_safe_range() {
    let ellipse = Ellipse::new(Point::new(0x1000_0000 - 0xFFFF, -0x1000_0000), Size::new(0xFFFF, 3));
    assert!(ellipse.is_well_formed());
    assert!(ellipse.contains(Point::new(0x1000_0000 - 0x8000, -0x1000_0000 + 1)));
    assert!(!ellipse.contains(Point::new(-0x1000_0000, 0x1000_0000)));
    let mut it = ellipse.points();
    let first = it.next();
    assert!(first.is_some());
    assert_eq!(first.map(|p| p.y), Some(-0x1000_0000));
}

#[test]
fn with_center_at_the_lowest_coordinate() {
    let e = Ellipse::with_center(Point::new(i32::MIN, i32::MIN + 1), Size::new(2, 3));
    assert_eq!(e, Ellipse::new(Point::new(i32::MIN, i32::MIN), Size::new(2, 3)));
}
