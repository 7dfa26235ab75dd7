use map_generator::{shade, Color, Fixed, Vec3};

fn fx(num: i64, den: i64) -> Fixed {
    Fixed::from_ratio(num, den)
}

fn grid(thousandths: &[i64]) -> Vec<Fixed> {
    thousandths.iter().map(|&n| fx(n, 1000)).collect()
}

fn light() -> Vec3 {
    Vec3([Fixed::from_int(-1), Fixed::from_int(-1), Fixed::zero()])
}

const LIGHT: Color = Color([255, 255, 204, 255]);
const DARK: Color = Color([51, 17, 51, 255]);
const FLAT: Color = Color([100, 150, 200, 255]);

fn shade_at(heights: &[Fixed], index: usize, width: usize) -> Color {
    shade(heights, index, FLAT, width, &light(), LIGHT, DARK)
}

#[test]
fn dot_product_of_space_vectors() {
    let a = Vec3([fx(1, 2), fx(-1, 4), Fixed::from_int(2)]);
    let b = Vec3([Fixed::from_int(2), Fixed::from_int(4), fx(1, 4)]);
    assert_eq!(a.dot(&b), fx(1, 2));
    assert_eq!(a.dot(&Vec3([Fixed::zero(), Fixed::zero(), Fixed::one()])), Fixed::from_int(2));
}

#[test]
fn cells_at_or_below_one_half_keep_their_colour() {
    let heights = grid(&[100, 900, 100, 500, 500, 500, 0, 1000, 0]);
    assert_eq!(shade_at(&heights, 0, 3), FLAT);
    assert_eq!(shade_at(&heights, 4, 3), FLAT);
    assert_eq!(shade_at(&heights, 6, 3), FLAT);
}

#[test]
fn level_ground_keeps_its_colour_under_a_level_light() {
    let heights = grid(&[600; 9]);
    for index in 0..9 {
        assert_eq!(shade_at(&heights, index, 3), FLAT);
    }
}

#[test]
fn level_ground_under_a_light_from_above_is_light() {
    let heights = grid(&[600; 9]);
    let above = Vec3([Fixed::zero(), Fixed::zero(), Fixed::one()]);
    assert_eq!(shade(&heights, 4, FLAT, 3, &above, LIGHT, DARK), LIGHT);
    let below = Vec3([Fixed::zero(), Fixed::zero(), Fixed::from_int(-1)]);
    assert_eq!(shade(&heights, 4, FLAT, 3, &below, LIGHT, DARK), DARK);
}

#[test]
fn gentle_slopes_blend_with_the_light_or_the_dark() {
    // slope of 0.02 along x at the centre: brightness just below 3/4
    let heights = grid(&[600, 600, 600, 590, 600, 610, 600, 600, 600]);
    assert_eq!(shade_at(&heights, 4, 3), Color([177, 202, 201, 255]));
    // the opposite slope: brightness just above 1/4
    let heights = grid(&[600, 600, 600, 610, 600, 590, 600, 600, 600]);
    assert_eq!(shade_at(&heights, 4, 3), Color([75, 83, 125, 255]));
}

#[test]
fn steep_slopes_take_the_light_or_the_dark_colour() {
    let heights = grid(&[600, 600, 600, 500, 600, 900, 600, 600, 600]);
    assert_eq!(shade_at(&heights, 4, 3), LIGHT);
    let heights = grid(&[600, 600, 600, 900, 600, 500, 600, 600, 600]);
    assert_eq!(shade_at(&heights, 4, 3), DARK);
}

#[test]
fn edge_cells_double_their_one_sided_difference() {
    let heights = grid(&[600, 610, 600, 600, 600, 605, 600, 590, 600]);
    assert_eq!(shade_at(&heights, 0, 3), Color([177, 202, 201, 255]));
    assert_eq!(shade_at(&heights, 1, 3), Color([75, 83, 125, 255]));
    assert_eq!(shade_at(&heights, 2, 3), Color([87, 116, 162, 255]));
    assert_eq!(shade_at(&heights, 3, 3), FLAT);
    assert_eq!(shade_at(&heights, 5, 3), Color([138, 176, 200, 255]));
    assert_eq!(shade_at(&heights, 6, 3), Color([75, 83, 125, 255]));
    assert_eq!(shade_at(&heights, 7, 3), Color([75, 83, 125, 255]));
    assert_eq!(shade_at(&heights, 8, 3), Color([138, 176, 200, 255]));
}

#[test]
fn a_single_row_or_column_has_no_slope_across() {
    // one row: only the slope along x counts
    let heights = grid(&[590, 600, 610]);
    assert_eq!(shade_at(&heights, 1, 3), Color([177, 202, 201, 255]));
    // one column: only the slope along y counts
    assert_eq!(shade_at(&heights, 1, 1), Color([177, 202, 201, 255]));
    // one cell: no slope at all
    let heights = grid(&[700]);
    assert_eq!(shade_at(&heights, 0, 1), FLAT);
}
