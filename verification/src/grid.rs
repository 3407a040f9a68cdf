//! Grids of temperatures: the repair of defective pixels, the mirroring of
//! a frame and its bounds.
//!
//! Temperatures are fractions kept by the caller, so these functions are
//! generic in the type of a grid's values and take the arithmetic and the
//! order of the values as functions.

use vstd::prelude::*;
use crate::{PIXELS_HEIGHT, PIXELS_WIDTH, PIXEL_COUNT};

verus! {

/// The values of the pixels next to pixel `pixel` of a grid, in the order
/// above, below, left, right: the pixel above unless the pixel is in the
/// first row, the pixel below unless it is in the last, the pixel to the
/// left unless it is in the first column, the pixel to the right unless it
/// is in the last.
pub open spec fn neighbours_of<T>(grid: Seq<T>, pixel: int) -> Seq<T> {
    let up = if pixel / 32 > 0 {
        seq![grid[pixel - 32]]
    } else {
        Seq::empty()
    };
    let down = if pixel / 32 + 1 < 24 {
        seq![grid[pixel + 32]]
    } else {
        Seq::empty()
    };
    let left = if pixel % 32 > 0 {
        seq![grid[pixel - 1]]
    } else {
        Seq::empty()
    };
    let right = if pixel % 32 + 1 < 32 {
        seq![grid[pixel + 1]]
    } else {
        Seq::empty()
    };
    up + down + left + right
}

/// Whether `total` is a sum of `values`: what `plus` gives when the values
/// are added to `zero` one after the other, from the first on.
pub open spec fn is_sum<T, A: Fn(T, T) -> T>(plus: A, zero: T, values: Seq<T>, total: T) -> bool
    decreases values.len(),
{
    if values.len() == 0 {
        total == zero
    } else {
        exists|before: T|
            #![trigger call_ensures(plus, (before, values.last()), total)]
            is_sum(plus, zero, values.drop_last(), before) && call_ensures(
                plus,
                (before, values.last()),
                total,
            )
    }
}

/// Whether `mean` is a mean of `values`: what `divide` gives for a sum of
/// the values and their number.
pub open spec fn is_mean<T, A: Fn(T, T) -> T, D: Fn(T, usize) -> T>(
    plus: A,
    divide: D,
    zero: T,
    values: Seq<T>,
    mean: T,
) -> bool {
    exists|total: T|
        #![trigger call_ensures(divide, (total, values.len() as usize), mean)]
        is_sum(plus, zero, values, total) && call_ensures(
            divide,
            (total, values.len() as usize),
            mean,
        )
}

/// Adding one more value to a sum gives a sum of the values with that value
/// at the end.
pub proof fn lemma_sum_push<T, A: Fn(T, T) -> T>(
    plus: A,
    zero: T,
    values: Seq<T>,
    before: T,
    value: T,
    total: T,
)
    requires
        is_sum(plus, zero, values, before),
        call_ensures(plus, (before, value), total),
    ensures
        is_sum(plus, zero, values.push(value), total),
{
    let all = values.push(value);
    assert(all.drop_last() =~= values);
    assert(all.last() == value);
    assert(is_sum(plus, zero, all.drop_last(), before) && call_ensures(
        plus,
        (before, all.last()),
        total,
    ));
}

/// Whether the list of defective pixels names pixel `pixel`.
pub open spec fn is_bad(bad_pixels: Seq<usize>, pixel: int) -> bool {
    exists|k: int| 0 <= k < bad_pixels.len() && #[trigger] bad_pixels[k] == pixel
}

/// A pixel inside the grid has four neighbours, a pixel in a corner two, and
/// any other pixel at the edge three.
pub proof fn lemma_neighbour_count<T>(grid: Seq<T>, pixel: int)
    requires
        0 <= pixel < PIXEL_COUNT,
    ensures
        ({
            let row = pixel / 32;
            let column = pixel % 32;
            let at_row_edge = row == 0 || row == 23;
            let at_column_edge = column == 0 || column == 31;
            neighbours_of(grid, pixel).len() == 4 - (if at_row_edge {
                1int
            } else {
                0
            }) - (if at_column_edge {
                1int
            } else {
                0
            })
        }),
{
}

/// The mean of the values next to pixel `index`: the neighbours that are
/// there are added to `zero`, the upper one first, then the lower, the left
/// and the right one, and the sum is divided by their number.
pub fn neighbour_mean<T: Copy, A: Fn(T, T) -> T, D: Fn(T, usize) -> T>(
    temp_grid: &[T; PIXEL_COUNT],
    index: usize,
    zero: T,
    plus: &A,
    divide: &D,
) -> (mean: T)
    requires
        index < PIXEL_COUNT,
        forall|sum: T, value: T| call_requires(*plus, (sum, value)),
        forall|sum: T, count: usize| 2 <= count <= 4 ==> call_requires(*divide, (sum, count)),
    ensures
        is_mean(*plus, *divide, zero, neighbours_of(temp_grid@, index as int), mean),
{
    let y: usize = index / PIXELS_WIDTH;
    let x: usize = index % PIXELS_WIDTH;

    let mut avg = zero;
    let mut num_avg: usize = 0;
    let ghost mut seen: Seq<T> = Seq::empty();

    // Upper neighbour
    if y > 0 {
        let ghost before = avg;
        avg = plus(avg, temp_grid[index - PIXELS_WIDTH]);
        num_avg += 1;
        proof {
            lemma_sum_push(*plus, zero, seen, before, temp_grid[index - PIXELS_WIDTH], avg);
            seen = seen.push(temp_grid[index - PIXELS_WIDTH]);
        }
    }
    // Lower neighbour
    if y + 1 < PIXELS_HEIGHT {
        let ghost before = avg;
        avg = plus(avg, temp_grid[index + PIXELS_WIDTH]);
        num_avg += 1;
        proof {
            lemma_sum_push(*plus, zero, seen, before, temp_grid[index + PIXELS_WIDTH], avg);
            seen = seen.push(temp_grid[index + PIXELS_WIDTH]);
        }
    }
    // Left neighbour
    if x > 0 {
        let ghost before = avg;
        avg = plus(avg, temp_grid[index - 1]);
        num_avg += 1;
        proof {
            lemma_sum_push(*plus, zero, seen, before, temp_grid[index - 1], avg);
            seen = seen.push(temp_grid[index - 1]);
        }
    }
    // Right neighbour
    if x + 1 < PIXELS_WIDTH {
        let ghost before = avg;
        avg = plus(avg, temp_grid[index + 1]);
        num_avg += 1;
        proof {
            lemma_sum_push(*plus, zero, seen, before, temp_grid[index + 1], avg);
            seen = seen.push(temp_grid[index + 1]);
        }
    }
    assert(seen =~= neighbours_of(temp_grid@, index as int));

    divide(avg, num_avg)
}

/// Repairs the defective pixels of a grid: each pixel that `bad_pixels`
/// names gets the mean of the values next to it in the grid as it came;
/// every other pixel stays. Entries of `bad_pixels` that name no pixel of
/// the grid are passed over. The values are added with `plus`, starting from
/// `zero`, and the sum is divided by their number with `divide`.
pub fn fix_bad_pixels<T: Copy, A: Fn(T, T) -> T, D: Fn(T, usize) -> T>(
    temp_grid: [T; PIXEL_COUNT],
    bad_pixels: [usize; 4],
    zero: T,
    plus: A,
    divide: D,
) -> (fixed: [T; PIXEL_COUNT])
    requires
        forall|sum: T, value: T| call_requires(plus, (sum, value)),
        forall|sum: T, count: usize| 2 <= count <= 4 ==> call_requires(divide, (sum, count)),
    ensures
        forall|pixel: int|
            0 <= pixel < PIXEL_COUNT ==> if is_bad(bad_pixels@, pixel) {
                is_mean(plus, divide, zero, neighbours_of(temp_grid@, pixel), #[trigger] fixed[pixel])
            } else {
                fixed[pixel] == temp_grid[pixel]
            },
{
    let mut fixed = temp_grid;
    let mut entry: usize = 0;
    while entry < 4
        invariant
            entry <= 4,
            forall|sum: T, value: T| call_requires(plus, (sum, value)),
            forall|sum: T, count: usize| 2 <= count <= 4 ==> call_requires(divide, (sum, count)),
            forall|pixel: int|
                0 <= pixel < PIXEL_COUNT ==> if is_bad(bad_pixels@.take(entry as int), pixel) {
                    is_mean(
                        plus,
                        divide,
                        zero,
                        neighbours_of(temp_grid@, pixel),
                        #[trigger] fixed[pixel],
                    )
                } else {
                    fixed[pixel] == temp_grid[pixel]
                },
        decreases 4 - entry,
    {
        let index: usize = bad_pixels[entry];
        if index < PIXEL_COUNT {
            let value = neighbour_mean(&temp_grid, index, zero, &plus, &divide);
            fixed[index] = value;
        }
        proof {
            let seen = bad_pixels@.take(entry as int);
            let now = bad_pixels@.take(entry + 1);
            assert forall|pixel: int| 0 <= pixel < PIXEL_COUNT implies if is_bad(now, pixel) {
                is_mean(
                    plus,
                    divide,
                    zero,
                    neighbours_of(temp_grid@, pixel),
                    #[trigger] fixed[pixel],
                )
            } else {
                fixed[pixel] == temp_grid[pixel]
            } by {
                if is_bad(seen, pixel) {
                    let k = choose|k: int| 0 <= k < seen.len() && #[trigger] seen[k] == pixel;
                    assert(now[k] == pixel);
                }
                if is_bad(now, pixel) && pixel != index {
                    let k = choose|k: int| 0 <= k < now.len() && #[trigger] now[k] == pixel;
                    assert(seen[k] == pixel);
                }
                if pixel == index {
                    assert(now[entry as int] == pixel);
                }
            }
        }
        entry += 1;
    }
    assert(bad_pixels@.take(4) =~= bad_pixels@);
    fixed
}

/// The pixel that pixel `pixel` moves to when the grid is mirrored left to
/// right: the same row, the columns counted from the other end.
pub open spec fn mirrored(pixel: int) -> int {
    (pixel / 32) * 32 + (31 - pixel % 32)
}

/// Mirrors a grid left to right: the value in column `x` of a row moves to
/// column `31 - x` of that row.
pub fn flip_horizontal<T: Copy>(grid: [T; PIXEL_COUNT]) -> (image_flip: [T; PIXEL_COUNT])
    ensures
        forall|pixel: int|
            0 <= pixel < PIXEL_COUNT ==> #[trigger] image_flip[mirrored(pixel)] == grid[pixel],
        forall|y: int, x: int|
            0 <= y < PIXELS_HEIGHT && 0 <= x < PIXELS_WIDTH ==> #[trigger] image_flip[y * 32 + (31
                - x)] == grid[y * 32 + x],
{
    let mut image_flip = grid;
    let mut old_index: usize = 0;
    while old_index < PIXEL_COUNT
        invariant
            old_index <= PIXEL_COUNT,
            forall|pixel: int|
                0 <= pixel < old_index ==> #[trigger] image_flip[mirrored(pixel)] == grid[pixel],
        decreases PIXEL_COUNT - old_index,
    {
        let y: usize = old_index / PIXELS_WIDTH;
        let x_flip: usize = PIXELS_WIDTH - old_index % PIXELS_WIDTH - 1;
        let new_index: usize = y * PIXELS_WIDTH + x_flip;
        let ghost before = image_flip;
        let value = grid[old_index];
        image_flip[new_index] = value;
        proof {
            assert forall|pixel: int| 0 <= pixel < old_index + 1 implies #[trigger] image_flip[mirrored(
                pixel,
            )] == grid[pixel] by {
                if pixel < old_index {
                    assert(before[mirrored(pixel)] == grid[pixel]);
                    assert(mirrored(pixel) != new_index);
                }
            }
        }
        old_index += 1;
    }
    proof {
        assert forall|y: int, x: int|
            0 <= y < PIXELS_HEIGHT && 0 <= x < PIXELS_WIDTH implies #[trigger] image_flip[y * 32 + (
            31 - x)] == grid[y * 32 + x] by {
            assert(mirrored(y * 32 + x) == y * 32 + (31 - x));
        }
    }
    image_flip
}

/// Mirroring keeps a pixel in the grid and in its row, and mirroring twice
/// puts it back.
pub proof fn lemma_mirrored_twice(pixel: int)
    requires
        0 <= pixel < PIXEL_COUNT,
    ensures
        0 <= mirrored(pixel) < PIXEL_COUNT,
        mirrored(pixel) / 32 == pixel / 32,
        mirrored(mirrored(pixel)) == pixel,
        mirrored(0) == 31,
{
}

/// The temperatures of one frame, with the least and the greatest of them.
#[derive(Clone, Copy, Debug, PartialEq)]
pub struct TemperatureRead<T> {
    pub temperature_grid: [T; PIXEL_COUNT],
    pub min_temp: T,
    pub max_temp: T,
}

impl<T: Copy> TemperatureRead<T> {
    /// The frame in which every pixel and both bounds are `value`.
    pub fn uniform(value: T) -> (read: TemperatureRead<T>)
        ensures
            read.min_temp == value,
            read.max_temp == value,
            forall|pixel: int|
                0 <= pixel < PIXEL_COUNT ==> #[trigger] read.temperature_grid[pixel] == value,
    {
        TemperatureRead { temperature_grid: [value; PIXEL_COUNT], min_temp: value, max_temp: value }
    }
}

/// Whether `least` is what a scan for the least value gives: starting from
/// `start`, each value in turn takes the place of the least so far where
/// `less` says that it is less.
pub open spec fn is_least<T, L: Fn(T, T) -> bool>(less: L, start: T, values: Seq<T>, least: T) -> bool
    decreases values.len(),
{
    if values.len() == 0 {
        least == start
    } else {
        exists|before: T, smaller: bool|
            #![trigger call_ensures(less, (values.last(), before), smaller)]
            is_least(less, start, values.drop_last(), before) && call_ensures(
                less,
                (values.last(), before),
                smaller,
            ) && least == if smaller {
                values.last()
            } else {
                before
            }
    }
}

/// Whether `greatest` is what a scan for the greatest value gives: starting
/// from `start`, each value in turn takes the place of the greatest so far
/// where `less` says that the greatest so far is less.
pub open spec fn is_greatest<T, L: Fn(T, T) -> bool>(
    less: L,
    start: T,
    values: Seq<T>,
    greatest: T,
) -> bool
    decreases values.len(),
{
    if values.len() == 0 {
        greatest == start
    } else {
        exists|before: T, smaller: bool|
            #![trigger call_ensures(less, (before, values.last()), smaller)]
            is_greatest(less, start, values.drop_last(), before) && call_ensures(
                less,
                (before, values.last()),
                smaller,
            ) && greatest == if smaller {
                values.last()
            } else {
                before
            }
    }
}

/// Puts an evaluated frame the way the sensor looks at the scene, and finds
/// its bounds: the frame is mirrored left to right, and its values are
/// scanned row by row for the least, starting from `lowest`, and for the
/// greatest, starting from `highest`, with `less` as the order.
pub fn read_temperatures<T: Copy, L: Fn(T, T) -> bool>(
    image_eval: [T; PIXEL_COUNT],
    lowest: T,
    highest: T,
    less: L,
) -> (read: TemperatureRead<T>)
    requires
        forall|left: T, right: T| call_requires(less, (left, right)),
    ensures
        forall|pixel: int|
            0 <= pixel < PIXEL_COUNT ==> #[trigger] read.temperature_grid[mirrored(pixel)]
                == image_eval[pixel],
        is_least(less, lowest, image_eval@, read.min_temp),
        is_greatest(less, highest, image_eval@, read.max_temp),
{
    let image_flip = flip_horizontal(image_eval);

    let mut min_temp = lowest;
    let mut max_temp = highest;

    let mut index: usize = 0;
    while index < PIXEL_COUNT
        invariant
            index <= PIXEL_COUNT,
            forall|left: T, right: T| call_requires(less, (left, right)),
            is_least(less, lowest, image_eval@.take(index as int), min_temp),
            is_greatest(less, highest, image_eval@.take(index as int), max_temp),
        decreases PIXEL_COUNT - index,
    {
        let value = image_eval[index];
        let ghost least = min_temp;
        let ghost greatest = max_temp;
        let below = less(value, min_temp);
        if below {
            min_temp = value;
        }
        let above = less(max_temp, value);
        if above {
            max_temp = value;
        }
        proof {
            let seen = image_eval@.take(index as int);
            let now = image_eval@.take(index + 1);
            assert(now.drop_last() =~= seen);
            assert(now.last() == value);
            assert(is_least(less, lowest, now.drop_last(), least) && call_ensures(
                less,
                (now.last(), least),
                below,
            ));
            assert(is_greatest(less, highest, now.drop_last(), greatest) && call_ensures(
                less,
                (greatest, now.last()),
                above,
            ));
        }
        index += 1;
    }
    assert(image_eval@.take(PIXEL_COUNT as int) =~= image_eval@);

    TemperatureRead { temperature_grid: image_flip, min_temp, max_temp }
}

/// The bounds of a grid whose values are all one value are that value,
/// where the order puts the value between the starts of the scans and not
/// below itself.
pub proof fn lemma_uniform_bounds<T, L: Fn(T, T) -> bool>(
    less: L,
    lowest: T,
    highest: T,
    values: Seq<T>,
    value: T,
    least: T,
    greatest: T,
)
    requires
        values.len() > 0,
        forall|k: int| 0 <= k < values.len() ==> values[k] == value,
        forall|smaller: bool| call_ensures(less, (value, lowest), smaller) ==> smaller,
        forall|smaller: bool| call_ensures(less, (highest, value), smaller) ==> smaller,
        forall|smaller: bool| call_ensures(less, (value, value), smaller) ==> !smaller,
        is_least(less, lowest, values, least),
        is_greatest(less, highest, values, greatest),
    ensures
        least == value,
        greatest == value,
    decreases values.len(),
{
    let rest = values.drop_last();
    assert(values.last() == value);
    let (before, smaller) = choose|before: T, smaller: bool|
        #![trigger call_ensures(less, (values.last(), before), smaller)]
        is_least(less, lowest, rest, before) && call_ensures(
            less,
            (values.last(), before),
            smaller,
        ) && least == if smaller {
            values.last()
        } else {
            before
        };
    let (under, larger) = choose|under: T, larger: bool|
        #![trigger call_ensures(less, (under, values.last()), larger)]
        is_greatest(less, highest, rest, under) && call_ensures(
            less,
            (under, values.last()),
            larger,
        ) && greatest == if larger {
            values.last()
        } else {
            under
        };
    if rest.len() > 0 {
        lemma_uniform_bounds(less, lowest, highest, rest, value, before, under);
    }
}

/// Where the function handed in decides an order, one in which no value is
/// both below and above another and in which "not below" carries over from
/// value to value, the bounds are the true ones: the least is below no
/// value of the grid and not above the start of its scan, the greatest is
/// above no value and not below the start of its scan, and each is a value
/// of the grid or the start of its scan.
pub proof fn lemma_bounds_are_extremes<T, L: Fn(T, T) -> bool>(
    less: L,
    below: spec_fn(T, T) -> bool,
    lowest: T,
    highest: T,
    values: Seq<T>,
    least: T,
    greatest: T,
)
    requires
        forall|left: T, right: T, smaller: bool|
            call_ensures(less, (left, right), smaller) ==> smaller == below(left, right),
        forall|left: T, right: T| #[trigger] below(left, right) ==> !below(right, left),
        forall|first: T, second: T, third: T|
            !#[trigger] below(first, second) && !#[trigger] below(second, third) ==> !below(
                first,
                third,
            ),
        is_least(less, lowest, values, least),
        is_greatest(less, highest, values, greatest),
    ensures
        !below(lowest, least),
        forall|k: int| 0 <= k < values.len() ==> !below(#[trigger] values[k], least),
        least == lowest || exists|k: int| 0 <= k < values.len() && #[trigger] values[k] == least,
        !below(greatest, highest),
        forall|k: int| 0 <= k < values.len() ==> !below(greatest, #[trigger] values[k]),
        greatest == highest || exists|k: int|
            0 <= k < values.len() && #[trigger] values[k] == greatest,
    decreases values.len(),
{
    if values.len() > 0 {
        let rest = values.drop_last();
        let last = values.last();
        let (before, smaller) = choose|before: T, smaller: bool|
            #![trigger call_ensures(less, (values.last(), before), smaller)]
            is_least(less, lowest, rest, before) && call_ensures(
                less,
                (values.last(), before),
                smaller,
            ) && least == if smaller {
                values.last()
            } else {
                before
            };
        let (under, larger) = choose|under: T, larger: bool|
            #![trigger call_ensures(less, (under, values.last()), larger)]
            is_greatest(less, highest, rest, under) && call_ensures(
                less,
                (under, values.last()),
                larger,
            ) && greatest == if larger {
                values.last()
            } else {
                under
            };
        lemma_bounds_are_extremes(less, below, lowest, highest, rest, before, under);
        assert(smaller == below(last, before));
        assert(larger == below(under, last));
        assert(values[values.len() - 1] == last);
        assert forall|k: int| 0 <= k < values.len() implies !below(#[trigger] values[k], least)
            && !below(greatest, values[k]) by {
            if k < rest.len() {
                assert(rest[k] == values[k]);
            }
        }
        if least != lowest && least != last {
            let k = choose|k: int| 0 <= k < rest.len() && #[trigger] rest[k] == least;
            assert(values[k] == least);
        }
        if greatest != highest && greatest != last {
            let k = choose|k: int| 0 <= k < rest.len() && #[trigger] rest[k] == greatest;
            assert(values[k] == greatest);
        }
    }
}

} // verus!
