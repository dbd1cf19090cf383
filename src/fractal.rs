//! Escape-time grids.
use vstd::prelude::*;

verus! {

/// Cap on the length of a Burning Ship orbit: escape times lie in `0..=MAX_ITERATIONS`.
pub const MAX_ITERATIONS: u8 = 100;

/// Row-major grid of escape times, one row per imaginary-axis pixel.
pub type Fractal = Vec<Vec<u8>>;

/// The grid has `height` rows of `width` cells, each an escape time no larger
/// than `MAX_ITERATIONS`.
pub open spec fn fractal_wf(width: nat, height: nat, frame: Seq<Vec<u8>>) -> bool {
    &&& frame.len() == height
    &&& forall|y: int| 0 <= y < height ==> #[trigger] frame[y]@.len() == width
    &&& forall|y: int, x: int|
        0 <= y < height && 0 <= x < width ==> #[trigger] frame[y]@[x] <= MAX_ITERATIONS
}

/// Tells whether `frame` is a well-formed `width` × `height` escape-time grid.
pub fn is_valid_fractal(width: usize, height: usize, frame: &Fractal) -> (r: bool)
    ensures
        r == fractal_wf(width as nat, height as nat, frame@),
{
    if frame.len() != height {
        return false;
    }
    let mut y: usize = 0;
    while y < height
        invariant
            frame@.len() == height,
            y <= height,
            forall|yy: int| 0 <= yy < y ==> #[trigger] frame@[yy]@.len() == width,
            forall|yy: int, x: int|
                0 <= yy < y && 0 <= x < width ==> #[trigger] frame@[yy]@[x] <= MAX_ITERATIONS,
        decreases height - y,
    {
        let row = &frame[y];
        if row.len() != width {
            return false;
        }
        let mut x: usize = 0;
        while x < width
            invariant
                frame@.len() == height,
                y < height,
                row@ == frame@[y as int]@,
                row@.len() == width,
                x <= width,
                forall|xx: int| 0 <= xx < x ==> #[trigger] row@[xx] <= MAX_ITERATIONS,
            decreases width - x,
        {
            if row[x] > MAX_ITERATIONS {
                assert(frame@[y as int]@[x as int] > MAX_ITERATIONS);
                return false;
            }
            x = x + 1;
        }
        assert forall|yy: int, xx: int|
            0 <= yy < y + 1 && 0 <= xx < width implies #[trigger] frame@[yy]@[xx]
            <= MAX_ITERATIONS by {
            if yy == y {
                assert(row@[xx] <= MAX_ITERATIONS);
            }
        }
        y = y + 1;
    }
    true
}

/// `orbit` is an orbit of `escape_count` steps under `next` from `start`: every
/// point before the last passed `contained`, and the last one either failed
/// it or the count reached `MAX_ITERATIONS`.
pub open spec fn escape_orbit<Z, C: Fn(&Z) -> bool, N: Fn(&Z) -> Z>(
    start: Z,
    contained: C,
    next: N,
    orbit: Seq<Z>,
    escape_count: nat,
) -> bool {
    &&& escape_count <= MAX_ITERATIONS
    &&& orbit.len() == escape_count + 1
    &&& orbit[0] == start
    &&& forall|k: int| 0 <= k < escape_count ==> contained.ensures((&orbit[k],), true)
    &&& forall|k: int| 0 <= k < escape_count ==> next.ensures((&orbit[k],), #[trigger] orbit[k + 1])
    &&& escape_count == MAX_ITERATIONS || contained.ensures((&orbit[escape_count as int],), false)
}

/// Escape time of an orbit: starting from `start`, steps by `next` while the
/// point is `contained` and fewer than `MAX_ITERATIONS` steps were taken, and
/// returns the number of steps. It is 0 exactly when `start` itself is not
/// contained.
pub fn get_orbit_rate<Z, C: Fn(&Z) -> bool, N: Fn(&Z) -> Z>(start: Z, contained: &C, next: &N) -> (r: u8)
    requires
        forall|z: &Z| contained.requires((z,)),
        forall|z: &Z| next.requires((z,)),
    ensures
        r <= MAX_ITERATIONS,
        exists|orbit: Seq<Z>| escape_orbit(start, *contained, *next, orbit, r as nat),
        r == 0 ==> contained.ensures((&start,), false),
{
    let mut i: u8 = 0;
    let mut z = start;
    let ghost mut orbit: Seq<Z> = seq![start];
    while i < MAX_ITERATIONS && contained(&z)
        invariant
            forall|z: &Z| contained.requires((z,)),
            forall|z: &Z| next.requires((z,)),
            i <= MAX_ITERATIONS,
            orbit.len() == i + 1,
            orbit[0] == start,
            orbit[i as int] == z,
            forall|k: int| 0 <= k < i ==> contained.ensures((&orbit[k],), true),
            forall|k: int| 0 <= k < i ==> next.ensures((&orbit[k],), #[trigger] orbit[k + 1]),
        decreases MAX_ITERATIONS - i,
    {
        let z_next = next(&z);
        proof {
            orbit = orbit.push(z_next);
        }
        z = z_next;
        i = i + 1;
    }
    assert(escape_orbit(start, *contained, *next, orbit, i as nat));
    i
}

/// `r` is the grid of `escape_time` over `width` × `height` pixels: row `y`
/// holds, at column `x`, a value that `escape_time` may return for `(x, y)`.
pub open spec fn grid_of<F: Fn(usize, usize) -> u8>(width: nat, height: nat, escape_time: F, r: Seq<Vec<u8>>) -> bool {
    &&& r.len() == height
    &&& forall|y: int| 0 <= y < height ==> #[trigger] r[y]@.len() == width
    &&& forall|y: int, x: int|
        0 <= y < height && 0 <= x < width ==> escape_time.ensures((x as usize, y as usize), #[trigger] r[y]@[x])
}

/// Escape times of row `row_index`, one per column `0..width`.
pub fn map_row<F: Fn(usize, usize) -> u8>(row_index: usize, width: usize, escape_time: &F) -> (r: Vec<u8>)
    requires
        forall|x: usize| x < width ==> escape_time.requires((x, row_index)),
    ensures
        r@.len() == width,
        forall|x: int| 0 <= x < width ==> escape_time.ensures((x as usize, row_index), #[trigger] r@[x]),
{
    let mut row: Vec<u8> = Vec::new();
    let mut x: usize = 0;
    while x < width
        invariant
            x <= width,
            row@.len() == x,
            forall|x: usize| x < width ==> escape_time.requires((x, row_index)),
            forall|xx: int| 0 <= xx < x ==> escape_time.ensures((xx as usize, row_index), #[trigger] row@[xx]),
        decreases width - x,
    {
        let v = escape_time(x, row_index);
        row.push(v);
        x = x + 1;
    }
    row
}

/// The escape-time grid of a frame: cell `(x, y)` is `escape_time(x, y)`,
/// rows following the imaginary axis and columns the real axis. When
/// `escape_time` never exceeds `MAX_ITERATIONS`, the grid is well-formed.
pub fn gen_burning_ship_fractal<F: Fn(usize, usize) -> u8>(img_width: usize, img_height: usize, escape_time: F) -> (r: Fractal)
    requires
        forall|x: usize, y: usize| x < img_width && y < img_height ==> escape_time.requires((x, y)),
    ensures
        grid_of(img_width as nat, img_height as nat, escape_time, r@),
        (forall|x: usize, y: usize, v: u8| escape_time.ensures((x, y), v) ==> v <= MAX_ITERATIONS)
            ==> fractal_wf(img_width as nat, img_height as nat, r@),
{
    let mut grid: Fractal = Vec::new();
    let mut y: usize = 0;
    while y < img_height
        invariant
            y <= img_height,
            grid@.len() == y,
            forall|x: usize, y: usize| x < img_width && y < img_height ==> escape_time.requires((x, y)),
            forall|yy: int| 0 <= yy < y ==> #[trigger] grid@[yy]@.len() == img_width,
            forall|yy: int, x: int|
                0 <= yy < y && 0 <= x < img_width ==> escape_time.ensures((x as usize, yy as usize), #[trigger] grid@[yy]@[x]),
        decreases img_height - y,
    {
        let row = map_row(y, img_width, &escape_time);
        grid.push(row);
        y = y + 1;
    }
    grid
}

/// Building a grid twice with the same per-pixel computation gives the same
/// grid, provided that computation returns one value for each pixel.
pub proof fn lemma_grid_deterministic<F: Fn(usize, usize) -> u8>(
    width: nat,
    height: nat,
    escape_time: F,
    g1: Seq<Vec<u8>>,
    g2: Seq<Vec<u8>>,
)
    requires
        forall|x: usize, y: usize, v1: u8, v2: u8|
            escape_time.ensures((x, y), v1) && escape_time.ensures((x, y), v2) ==> v1 == v2,
        grid_of(width, height, escape_time, g1),
        grid_of(width, height, escape_time, g2),
    ensures
        g1.len() == g2.len(),
        forall|y: int| 0 <= y < g1.len() ==> #[trigger] g1[y]@ == g2[y]@,
{
    assert forall|y: int| 0 <= y < g1.len() implies #[trigger] g1[y]@ == g2[y]@ by {
        assert forall|x: int| 0 <= x < width implies g1[y]@[x] == g2[y]@[x] by {
            assert(escape_time.ensures((x as usize, y as usize), g1[y]@[x]));
            assert(escape_time.ensures((x as usize, y as usize), g2[y]@[x]));
        }
        assert(g1[y]@ =~= g2[y]@);
    }
}

} // verus!
