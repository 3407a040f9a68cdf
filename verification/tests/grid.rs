use thermal_camera::grid::{fix_bad_pixels, flip_horizontal, neighbour_mean, read_temperatures};

fn plus(sum: f32, value: f32) -> f32 {
    sum + value
}

fn over(sum: f32, count: usize) -> f32 {
    sum / count as f32
}

fn repair(grid: [f32; 768], bad_pixels: [usize; 4]) -> [f32; 768] {
    fix_bad_pixels(grid, bad_pixels, 0.0, plus, over)
}

fn grid() -> [f32; 768] {
    let mut grid = [0.0f32; 768];
    for (pixel, value) in grid.iter_mut().enumerate() {
        *value = 20.0 + (pixel / 32) as f32 * 0.5 + (pixel % 32) as f32 * 0.25;
    }
    grid
}

#[test]
fn the_mean_of_an_inner_pixel_takes_four_values() {
    let grid = grid();
    let pixel = 5 * 32 + 7;
    let expected = (grid[pixel - 32] + grid[pixel + 32] + grid[pixel - 1] + grid[pixel + 1]) / 4.0;
    assert_eq!(neighbour_mean(&grid, pixel, 0.0, &plus, &over), expected);
}

#[test]
fn the_mean_at_the_edges_takes_the_values_that_are_there() {
    let grid = grid();
    assert_eq!(neighbour_mean(&grid, 0, 0.0, &plus, &over), (grid[32] + grid[1]) / 2.0);
    assert_eq!(neighbour_mean(&grid, 767, 0.0, &plus, &over), (grid[735] + grid[766]) / 2.0);
    assert_eq!(neighbour_mean(&grid, 31, 0.0, &plus, &over), (grid[63] + grid[30]) / 2.0);
    assert_eq!(neighbour_mean(&grid, 736, 0.0, &plus, &over), (grid[704] + grid[737]) / 2.0);
    assert_eq!(
        neighbour_mean(&grid, 64, 0.0, &plus, &over),
        (grid[32] + grid[96] + grid[65]) / 3.0
    );
}

#[test]
fn neighbours_are_added_from_the_upper_one_on() {
    let mut letters = [' '; 768];
    letters[5 * 32 + 6] = 'l';
    letters[5 * 32 + 8] = 'r';
    letters[4 * 32 + 7] = 'u';
    letters[6 * 32 + 7] = 'd';
    let order = std::cell::RefCell::new(String::new());
    let record = |sum: char, value: char| {
        order.borrow_mut().push(value);
        sum
    };
    let counted = std::cell::Cell::new(0);
    let count = |sum: char, count: usize| {
        counted.set(count);
        sum
    };
    neighbour_mean(&letters, 5 * 32 + 7, ' ', &record, &count);
    assert_eq!(order.borrow().as_str(), "udlr");
    assert_eq!(counted.get(), 4);
}

#[test]
fn an_inner_bad_pixel_gets_the_mean_of_four() {
    let mut grid = [10.0f32; 768];
    let pixel = 10 * 32 + 10;
    grid[pixel] = 9999.0;
    grid[pixel - 32] = 1.0;
    grid[pixel + 32] = 2.0;
    grid[pixel - 1] = 4.0;
    grid[pixel + 1] = 8.0;
    let fixed = repair(grid, [pixel, usize::MAX, usize::MAX, usize::MAX]);
    assert_eq!(fixed[pixel], 3.75);
    for other in 0..768 {
        if other != pixel {
            assert_eq!(fixed[other], grid[other]);
        }
    }
}

#[test]
fn a_corner_bad_pixel_gets_the_mean_of_two() {
    let mut grid = [10.0f32; 768];
    grid[0] = -500.0;
    grid[1] = 21.0;
    grid[32] = 24.0;
    grid[767] = -500.0;
    grid[766] = 1.5;
    grid[735] = 2.0;
    let fixed = repair(grid, [0, 767, usize::MAX, usize::MAX]);
    assert_eq!(fixed[0], 22.5);
    assert_eq!(fixed[767], 1.75);
    assert_eq!(fixed[1], 21.0);
}

#[test]
fn an_edge_bad_pixel_gets_the_mean_of_three() {
    let mut grid = [0.0f32; 768];
    grid[15] = 1000.0;
    grid[14] = 3.0;
    grid[16] = 6.0;
    grid[47] = 12.0;
    let fixed = repair(grid, [usize::MAX, 15, usize::MAX, usize::MAX]);
    assert_eq!(fixed[15], 7.0);
}

#[test]
fn bad_neighbours_are_averaged_as_they_came() {
    let mut grid = [10.0f32; 768];
    grid[100] = 1000.0;
    grid[101] = 2000.0;
    let fixed = repair(grid, [100, 101, usize::MAX, usize::MAX]);
    // each repair sees the other pixel's raw value
    assert_eq!(fixed[100], (10.0 + 10.0 + 10.0 + 2000.0) / 4.0);
    assert_eq!(fixed[101], (10.0 + 10.0 + 1000.0 + 10.0) / 4.0);
}

#[test]
fn no_bad_pixels_leaves_the_grid() {
    let grid = grid();
    assert_eq!(repair(grid, [usize::MAX; 4]), grid);
    assert_eq!(repair(grid, [768, 1000, usize::MAX, 5000]), grid);
}

#[test]
fn repair_works_on_whole_numbers_too() {
    let mut grid = [0i32; 768];
    grid[33] = 7;
    grid[1] = 4;
    grid[65] = 8;
    grid[32] = 12;
    grid[34] = 16;
    let fixed =
        fix_bad_pixels(grid, [33, 33, usize::MAX, usize::MAX], 0, |sum, value| sum + value, |sum, _| sum);
    assert_eq!(fixed[33], 40);
}

#[test]
fn flip_moves_the_first_column_to_the_last() {
    let grid = grid();
    let flipped = flip_horizontal(grid);
    assert_eq!(flipped[31], grid[0]);
    assert_eq!(flipped[0], grid[31]);
    for y in 0..24 {
        for x in 0..32 {
            assert_eq!(flipped[y * 32 + 31 - x], grid[y * 32 + x]);
        }
    }
}

#[test]
fn flipping_twice_gives_the_grid_back() {
    let mut grid = [0u16; 768];
    for (pixel, value) in grid.iter_mut().enumerate() {
        *value = pixel as u16;
    }
    let flipped = flip_horizontal(grid);
    assert_eq!(flipped[0], 31);
    assert_eq!(flipped[32], 63);
    assert_eq!(flipped[767], 736);
    assert_eq!(flip_horizontal(flipped), grid);
}

fn less(left: f32, right: f32) -> bool {
    left < right
}

#[test]
fn a_frame_is_mirrored_and_bounded() {
    let grid = grid();
    let read = read_temperatures(grid, 99999.0, -99999.0, less);
    assert_eq!(read.temperature_grid, flip_horizontal(grid));
    // the coldest pixel is the first, the warmest the last
    assert_eq!(read.min_temp, 20.0);
    assert_eq!(read.max_temp, 20.0 + 23.0 * 0.5 + 31.0 * 0.25);
    assert_eq!(read.temperature_grid[31], read.min_temp);
    assert_eq!(read.temperature_grid[736], read.max_temp);
}

#[test]
fn a_uniform_frame_has_equal_bounds() {
    let read = read_temperatures([36.6f32; 768], 99999.0, -99999.0, less);
    assert_eq!(read.min_temp, 36.6);
    assert_eq!(read.max_temp, read.min_temp);
    assert_eq!(read.temperature_grid, [36.6f32; 768]);
}

#[test]
fn bounds_outside_the_starts_stay_at_the_starts() {
    let read = read_temperatures([5i32; 768], 0, 10, |left: i32, right: i32| left < right);
    assert_eq!((read.min_temp, read.max_temp), (0, 10));
}

#[test]
fn values_that_are_no_numbers_are_passed_over() {
    let mut grid = [f32::NAN; 768];
    grid[100] = -3.5;
    grid[200] = 41.0;
    let read = read_temperatures(grid, 99999.0, -99999.0, less);
    assert_eq!((read.min_temp, read.max_temp), (-3.5, 41.0));
}

#[test]
fn the_bounds_are_the_least_and_the_greatest_value() {
    let mut grid = [0i32; 768];
    for (pixel, value) in grid.iter_mut().enumerate() {
        *value = ((pixel as i32 * 7919) % 1013) - 500;
    }
    let read = read_temperatures(grid, i32::MAX, i32::MIN, |left: i32, right: i32| left < right);
    assert_eq!(read.min_temp, *grid.iter().min().unwrap());
    assert_eq!(read.max_temp, *grid.iter().max().unwrap());
    assert!(grid.contains(&read.min_temp) && grid.contains(&read.max_temp));
}
