use burning_ship::fractal::{
    gen_burning_ship_fractal, get_orbit_rate, is_valid_fractal, map_row, MAX_ITERATIONS,
};
use burning_ship::painter::{generate_random_palette, is_paintable, paint_frame};
use image::Rgb;

#[test]
fn palette_has_one_colour_per_escape_time() {
    assert_eq!(generate_random_palette(MAX_ITERATIONS).len(), 101);
    assert_eq!(generate_random_palette(0).len(), 1);
    assert_eq!(generate_random_palette(254).len(), 255);
}

#[test]
fn valid_fractal_shapes_and_values() {
    let grid = vec![vec![0u8, 100, 7], vec![1, 2, 3]];
    assert!(is_valid_fractal(3, 2, &grid));
    assert!(!is_valid_fractal(2, 3, &grid));
    assert!(!is_valid_fractal(3, 2, &vec![vec![0u8, 101, 7], vec![1, 2, 3]]));
    assert!(!is_valid_fractal(3, 2, &vec![vec![0u8, 1, 7], vec![1, 2]]));
    assert!(is_valid_fractal(0, 0, &Vec::new()));
}

#[test]
fn painted_pixels_take_their_palette_colour() {
    let palette = vec![Rgb([0u8, 0, 0]), Rgb([10u8, 20, 30]), Rgb([200u8, 100, 50])];
    let grid = vec![vec![1u8, 2, 0], vec![2, 2, 1]];
    let painted = paint_frame(3, 2, &grid, &palette);
    let img = &painted.buffer;
    assert_eq!(img.dimensions(), (3, 2));
    assert_eq!(*img.get_pixel(0, 0), Rgb([10, 20, 30]));
    assert_eq!(*img.get_pixel(1, 0), Rgb([200, 100, 50]));
    assert_eq!(*img.get_pixel(2, 0), Rgb([0, 0, 0]));
    assert_eq!(*img.get_pixel(0, 1), Rgb([200, 100, 50]));
    assert_eq!(*img.get_pixel(2, 1), Rgb([10, 20, 30]));
}

#[test]
fn a_valid_grid_paints_with_a_full_palette() {
    let palette = generate_random_palette(MAX_ITERATIONS);
    let grid: Vec<Vec<u8>> = (0..4u8).map(|y| (0..26u8).map(|x| (x * 4 + y) % 101).collect()).collect();
    assert!(is_valid_fractal(26, 4, &grid));
    let painted = paint_frame(26, 4, &grid, &palette);
    for y in 0..4u32 {
        for x in 0..26u32 {
            let cell = grid[y as usize][x as usize] as usize;
            assert_eq!(*painted.buffer.get_pixel(x, y), palette[cell]);
        }
    }
}

#[test]
fn grid_cells_follow_pixel_coordinates() {
    let grid = gen_burning_ship_fractal(4, 3, |x: usize, y: usize| (x + 10 * y) as u8);
    assert_eq!(grid, vec![vec![0u8, 1, 2, 3], vec![10, 11, 12, 13], vec![20, 21, 22, 23]]);
    assert!(is_valid_fractal(4, 3, &grid));
    assert!(gen_burning_ship_fractal(0, 0, |_x: usize, _y: usize| 0u8).is_empty());
    assert_eq!(gen_burning_ship_fractal(0, 2, |_x: usize, _y: usize| 0u8), vec![Vec::<u8>::new(), Vec::new()]);
}

#[test]
fn a_row_holds_one_value_per_column() {
    assert_eq!(map_row(7, 3, &|x: usize, y: usize| (x * y) as u8), vec![0u8, 7, 14]);
}

#[test]
fn orbit_rate_counts_contained_steps() {
    let step = |z: &i64| -> i64 { z + 1 };
    assert_eq!(get_orbit_rate(0i64, &|z: &i64| -> bool { *z < 5 }, &step), 5);
    assert_eq!(get_orbit_rate(10i64, &|z: &i64| -> bool { *z < 5 }, &step), 0);
    assert_eq!(get_orbit_rate(0i64, &|_z: &i64| -> bool { true }, &step), MAX_ITERATIONS);
    assert_eq!(get_orbit_rate(0i64, &|z: &i64| -> bool { *z < 99 }, &step), 99);
}

#[test]
fn orbit_rate_of_a_squaring_orbit() {
    // z -> z^2 + 1 from 0: 0, 1, 2, 5, 26 leaves |z| < 4 at the fourth point.
    let contained = |z: &i64| -> bool { z * z < 16 };
    let step = |z: &i64| -> i64 { z * z + 1 };
    assert_eq!(get_orbit_rate(0i64, &contained, &step), 3);
}

#[test]
fn empty_grid_paints_an_empty_image() {
    let palette = generate_random_palette(MAX_ITERATIONS);
    let painted = paint_frame(0, 0, &Vec::new(), &palette);
    assert_eq!(painted.buffer.dimensions(), (0, 0));
}

#[test]
fn a_smaller_grid_leaves_the_rest_black() {
    let palette = vec![Rgb([0u8, 0, 0]), Rgb([10u8, 20, 30]), Rgb([200u8, 100, 50])];
    let grid = vec![vec![1u8, 2], vec![2]];
    assert!(is_paintable(3, 3, &grid, &palette));
    let painted = paint_frame(3, 3, &grid, &palette);
    let img = &painted.buffer;
    assert_eq!(img.dimensions(), (3, 3));
    assert_eq!(*img.get_pixel(0, 0), Rgb([10, 20, 30]));
    assert_eq!(*img.get_pixel(1, 0), Rgb([200, 100, 50]));
    assert_eq!(*img.get_pixel(2, 0), Rgb([0, 0, 0]));
    assert_eq!(*img.get_pixel(0, 1), Rgb([200, 100, 50]));
    assert_eq!(*img.get_pixel(1, 1), Rgb([0, 0, 0]));
    assert_eq!(*img.get_pixel(2, 2), Rgb([0, 0, 0]));
}

#[test]
fn paintable_grids_fit_the_image_and_palette() {
    let palette = generate_random_palette(MAX_ITERATIONS);
    assert!(is_paintable(2, 2, &vec![vec![100u8, 0], vec![5, 6]], &palette));
    assert!(!is_paintable(2, 2, &vec![vec![101u8, 0], vec![5, 6]], &palette));
    assert!(!is_paintable(2, 2, &vec![vec![1u8, 0, 3]], &palette));
    assert!(!is_paintable(2, 1, &vec![vec![1u8], vec![2]], &palette));
    assert!(is_paintable(0, 0, &Vec::new(), &palette));
}

#[test]
fn building_a_grid_twice_gives_the_same_grid() {
    let f = |x: usize, y: usize| ((x * 7 + y * 3) % 101) as u8;
    let g1 = gen_burning_ship_fractal(9, 5, f);
    let g2 = gen_burning_ship_fractal(9, 5, f);
    assert_eq!(g1, g2);
}
