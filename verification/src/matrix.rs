//! Block layout of dense matrices: joining side by side and one above
//! the other.  The layout does not depend on what the entries are, so it
//! is stated and proved for any entry type.
use vstd::prelude::*;

verus! {

/// The rows of a `HEIGHT` x `WIDTH` array as sequences.
pub open spec fn grid<T, const HEIGHT: usize, const WIDTH: usize>(a: [[T; WIDTH]; HEIGHT]) -> Seq<Seq<T>> {
    a@.map_values(|row: [T; WIDTH]| row@)
}

/// Each row of `left` followed by the row of `right` with the same index.
pub open spec fn side_by_side<T>(left: Seq<Seq<T>>, right: Seq<Seq<T>>) -> Seq<Seq<T>> {
    Seq::new(left.len(), |i: int| left[i] + right[i])
}

/// The rows of `top` followed by the rows of `bottom`.
pub open spec fn stacked<T>(top: Seq<Seq<T>>, bottom: Seq<Seq<T>>) -> Seq<Seq<T>> {
    top + bottom
}

/// Writes `left` and `right` side by side into `out`, whose width is the
/// sum of theirs.
pub fn join_right<T: Copy, const HEIGHT: usize, const WIDTH: usize, const INWIDTH: usize, const OUTWIDTH: usize>(
    out: &mut [[T; OUTWIDTH]; HEIGHT],
    left: &[[T; WIDTH]; HEIGHT],
    right: &[[T; INWIDTH]; HEIGHT],
)
    requires
        OUTWIDTH == INWIDTH + WIDTH,
    ensures
        grid(*final(out)) == side_by_side(grid(*left), grid(*right)),
        forall|r: int, c: int|
            0 <= r < HEIGHT && 0 <= c < OUTWIDTH ==> #[trigger] final(out)@[r]@[c] == (if c < WIDTH {
                left@[r]@[c]
            } else {
                right@[r]@[c - WIDTH]
            }),
{
    let mut i: usize = 0;
    while i < HEIGHT
        invariant
            OUTWIDTH == INWIDTH + WIDTH,
            0 <= i <= HEIGHT,
            forall|r: int| 0 <= r < i ==> (#[trigger] out@[r])@ == left@[r]@ + right@[r]@,
        decreases HEIGHT - i,
    {
        let mut row: [T; OUTWIDTH] = out[i];
        let mut j: usize = 0;
        while j < OUTWIDTH
            invariant
                OUTWIDTH == INWIDTH + WIDTH,
                0 <= i < HEIGHT,
                0 <= j <= OUTWIDTH,
                forall|c: int| 0 <= c < j ==> #[trigger] row@[c] == (left@[i as int]@ + right@[i as int]@)[c],
            decreases OUTWIDTH - j,
        {
            if j < WIDTH {
                row[j] = left[i][j];
            } else {
                row[j] = right[i][j - WIDTH];
            }
            j = j + 1;
        }
        assert(row@ =~= left@[i as int]@ + right@[i as int]@);
        out[i] = row;
        i = i + 1;
    }
    assert(grid(*out) =~= side_by_side(grid(*left), grid(*right)));
    assert forall|r: int, c: int| 0 <= r < HEIGHT && 0 <= c < OUTWIDTH implies #[trigger] out@[r]@[c] == (if c
        < WIDTH {
        left@[r]@[c]
    } else {
        right@[r]@[c - WIDTH]
    }) by {
        assert(out@[r]@ == left@[r]@ + right@[r]@);
    }
}


/// Writes the rows of `top` and then the rows of `bottom` into `out`,
/// whose height is the sum of theirs.
pub fn join_down<T: Copy, const HEIGHT: usize, const WIDTH: usize, const INHEIGHT: usize, const OUTHEIGHT: usize>(
    out: &mut [[T; WIDTH]; OUTHEIGHT],
    top: &[[T; WIDTH]; HEIGHT],
    bottom: &[[T; WIDTH]; INHEIGHT],
)
    requires
        OUTHEIGHT == INHEIGHT + HEIGHT,
    ensures
        grid(*final(out)) == stacked(grid(*top), grid(*bottom)),
        forall|r: int|
            0 <= r < OUTHEIGHT ==> #[trigger] final(out)@[r] == (if r < HEIGHT {
                top@[r]
            } else {
                bottom@[r - HEIGHT]
            }),
{
    let mut i: usize = 0;
    while i < OUTHEIGHT
        invariant
            OUTHEIGHT == INHEIGHT + HEIGHT,
            0 <= i <= OUTHEIGHT,
            forall|r: int| 0 <= r < i ==> #[trigger] out@[r] == (top@ + bottom@)[r],
        decreases OUTHEIGHT - i,
    {
        if i < HEIGHT {
            out[i] = top[i];
        } else {
            out[i] = bottom[i - HEIGHT];
        }
        i = i + 1;
    }
    assert(out@ =~= top@ + bottom@);
    assert(grid(*out) =~= stacked(grid(*top), grid(*bottom)));
}

/// The rows of `grid(a)` are the rows of `a`, entry for entry.
pub proof fn lemma_grid_entries<T, const HEIGHT: usize, const WIDTH: usize>(a: [[T; WIDTH]; HEIGHT])
    ensures
        grid(a).len() == HEIGHT,
        forall|r: int| 0 <= r < HEIGHT ==> (#[trigger] grid(a)[r]).len() == WIDTH,
        forall|r: int, c: int| 0 <= r < HEIGHT && 0 <= c < WIDTH ==> #[trigger] grid(a)[r][c] == a@[r]@[c],
{
}

/// Side by side, every row keeps its height; entry `c` of row `r` is entry
/// `c` of the left row while `c` is inside it, and entry `c - w` of the
/// right row after it, `w` being the width of the left row.
pub proof fn lemma_side_by_side_entries<T>(left: Seq<Seq<T>>, right: Seq<Seq<T>>)
    requires
        left.len() == right.len(),
    ensures
        side_by_side(left, right).len() == left.len(),
        forall|r: int|
            0 <= r < left.len() ==> (#[trigger] side_by_side(left, right)[r]).len() == left[r].len()
                + right[r].len(),
        forall|r: int, c: int|
            0 <= r < left.len() && 0 <= c < left[r].len() ==> #[trigger] side_by_side(left, right)[r][c]
                == left[r][c],
        forall|r: int, c: int|
            0 <= r < left.len() && left[r].len() <= c < left[r].len() + right[r].len()
                ==> #[trigger] side_by_side(left, right)[r][c] == right[r][c - left[r].len()],
{
}

/// Stacked, the top rows come first in their order and the bottom rows
/// follow in theirs.
pub proof fn lemma_stacked_rows<T>(top: Seq<Seq<T>>, bottom: Seq<Seq<T>>)
    ensures
        stacked(top, bottom).len() == top.len() + bottom.len(),
        forall|r: int| 0 <= r < top.len() ==> #[trigger] stacked(top, bottom)[r] == top[r],
        forall|r: int|
            top.len() <= r < top.len() + bottom.len() ==> #[trigger] stacked(top, bottom)[r] == bottom[r
                - top.len()],
{
}

/// The identity holds `one` on the diagonal and `zero` off it.
pub proof fn lemma_identity_entries<T>(zero: T, one: T)
    ensures
        forall|i: int| #[trigger] identity_entry(zero, one, i, i) == one,
        forall|i: int, j: int| i != j ==> #[trigger] identity_entry(zero, one, i, j) == zero,
{
}

/// Which field of a block sits where: x output row and x input column hold
/// `xx`, x row and y column `yx`, y row and x column `xy`, y row and y column
/// `yy`.
pub proof fn lemma_block_entry_fields<T>(b: IOBlock<T>)
    ensures
        block_entry(b, false, false) == b.xx,
        block_entry(b, false, true) == b.yx,
        block_entry(b, true, false) == b.xy,
        block_entry(b, true, true) == b.yy,
{
}

/// Joining four blocks gives the same matrix whether the two rows of
/// blocks are joined first and then stacked, or the two columns of blocks
/// are stacked first and then joined.
pub proof fn lemma_block_interchange<T>(a: Seq<Seq<T>>, b: Seq<Seq<T>>, c: Seq<Seq<T>>, d: Seq<Seq<T>>)
    requires
        a.len() == b.len(),
        c.len() == d.len(),
    ensures
        stacked(side_by_side(a, b), side_by_side(c, d)) == side_by_side(stacked(a, c), stacked(b, d)),
{
    assert(stacked(side_by_side(a, b), side_by_side(c, d)) =~= side_by_side(stacked(a, c), stacked(b, d)));
}


/// The identity entry at row `i`, column `j`.
pub open spec fn identity_entry<T>(zero: T, one: T, i: int, j: int) -> T {
    if i == j { one } else { zero }
}

/// The `DIMENSION` x `DIMENSION` identity matrix: `one` on the diagonal and
/// `zero` everywhere else.
pub fn identity<T: Copy, const DIMENSION: usize>(zero: T, one: T) -> (m: [[T; DIMENSION]; DIMENSION])
    ensures
        forall|i: int, j: int|
            0 <= i < DIMENSION && 0 <= j < DIMENSION ==> #[trigger] m@[i]@[j] == identity_entry(zero, one, i, j),
        forall|i: int| 0 <= i < DIMENSION ==> #[trigger] m@[i]@[i] == one,
        forall|i: int, j: int| 0 <= i < DIMENSION && 0 <= j < DIMENSION && i != j ==> #[trigger] m@[i]@[j] == zero,
{
    let mut m: [[T; DIMENSION]; DIMENSION] = [[zero; DIMENSION]; DIMENSION];
    let mut i: usize = 0;
    while i < DIMENSION
        invariant
            0 <= i <= DIMENSION,
            forall|r: int, c: int|
                0 <= r < DIMENSION && 0 <= c < DIMENSION ==> #[trigger] m@[r]@[c] == (if r < i { identity_entry(zero, one, r, c) } else { zero }),
        decreases DIMENSION - i,
    {
        let mut row: [T; DIMENSION] = m[i];
        row[i] = one;
        m[i] = row;
        i = i + 1;
    }
    m
}

/// One 2 x 2 block of a matrix that maps planar points to planar points:
/// the output x gains `xx` times the input x and `yx` times the input y,
/// the output y gains `xy` times the input x and `yy` times the input y.
#[derive(Clone, Copy)]
pub struct IOBlock<T> {
    pub xx: T,
    pub xy: T,
    pub yx: T,
    pub yy: T,
}

/// The entry of block `b` in output row `out_y` (0 for x, 1 for y) and
/// input column `in_y` (0 for x, 1 for y).
pub open spec fn block_entry<T>(b: IOBlock<T>, out_y: bool, in_y: bool) -> T {
    match (out_y, in_y) {
        (false, false) => b.xx,
        (false, true) => b.yx,
        (true, false) => b.xy,
        (true, true) => b.yy,
    }
}

/// Writes the scalar form of a `SIZE` x `SIZE` matrix of blocks into `out`:
/// rows `2r` and `2r + 1` are the x and y outputs of point `r`, columns
/// `2c` and `2c + 1` the x and y inputs of point `c`.
pub fn to_matrix<T: Copy, const SIZE: usize, const OUTSIZE: usize>(
    out: &mut [[T; OUTSIZE]; OUTSIZE],
    blocks: &[[IOBlock<T>; SIZE]; SIZE],
)
    requires
        OUTSIZE == 2 * SIZE,
    ensures
        forall|i: int, j: int|
            0 <= i < OUTSIZE && 0 <= j < OUTSIZE ==> #[trigger] final(out)@[i]@[j] == block_entry(
                blocks@[i / 2]@[j / 2],
                i % 2 == 1,
                j % 2 == 1,
            ),
        forall|i: int, j: int|
            0 <= i < OUTSIZE && 0 <= j < OUTSIZE ==> {
                let b = blocks@[i / 2]@[j / 2];
                &&& (i % 2 == 0 && j % 2 == 0 ==> #[trigger] final(out)@[i]@[j] == b.xx)
                &&& (i % 2 == 0 && j % 2 == 1 ==> final(out)@[i]@[j] == b.yx)
                &&& (i % 2 == 1 && j % 2 == 0 ==> final(out)@[i]@[j] == b.xy)
                &&& (i % 2 == 1 && j % 2 == 1 ==> final(out)@[i]@[j] == b.yy)
            },
{
    let mut i: usize = 0;
    while i < OUTSIZE
        invariant
            OUTSIZE == 2 * SIZE,
            0 <= i <= OUTSIZE,
            forall|r: int, c: int|
                0 <= r < i && 0 <= c < OUTSIZE ==> #[trigger] out@[r]@[c] == block_entry(
                    blocks@[r / 2]@[c / 2],
                    r % 2 == 1,
                    c % 2 == 1,
                ),
        decreases OUTSIZE - i,
    {
        let mut row: [T; OUTSIZE] = out[i];
        let bi: usize = i >> 1;
        let odd_i: bool = i & 1 == 1;
        assert(bi == i / 2 && odd_i == (i % 2 == 1)) by (bit_vector)
            requires bi == i >> 1, odd_i == (i & 1 == 1);
        let mut j: usize = 0;
        while j < OUTSIZE
            invariant
                OUTSIZE == 2 * SIZE,
                0 <= i < OUTSIZE,
                bi == i / 2,
                odd_i == (i % 2 == 1),
                0 <= j <= OUTSIZE,
                forall|c: int|
                    0 <= c < j ==> #[trigger] row@[c] == block_entry(
                        blocks@[i as int / 2]@[c / 2],
                        i % 2 == 1,
                        c % 2 == 1,
                    ),
            decreases OUTSIZE - j,
        {
            let bj: usize = j >> 1;
            let odd_j: bool = j & 1 == 1;
            assert(bj == j / 2 && odd_j == (j % 2 == 1)) by (bit_vector)
                requires bj == j >> 1, odd_j == (j & 1 == 1);
            let spot: IOBlock<T> = blocks[bi][bj];
            let v: T = match (odd_i, odd_j) {
                (false, false) => spot.xx,
                (false, true) => spot.yx,
                (true, false) => spot.xy,
                (true, true) => spot.yy,
            };
            row[j] = v;
            j = j + 1;
        }
        out[i] = row;
        i = i + 1;
    }
}

} // verus!
