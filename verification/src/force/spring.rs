//! Where a spring between two auxiliary points writes its contribution.
use vstd::prelude::*;
use crate::matrix::{grid, lemma_grid_entries};

verus! {

/// `g` with the entry at row `i`, column `j` replaced by `v`.
pub open spec fn set_entry<T>(g: Seq<Seq<T>>, i: int, j: int, v: T) -> Seq<Seq<T>> {
    g.update(i, g[i].update(j, v))
}

/// The restoring block of a spring between points `p1` and `p2`: `pos` on
/// both diagonal blocks, then `neg` on both off-diagonal blocks, written in
/// that order.
pub open spec fn spring_stamp<T>(g: Seq<Seq<T>>, p1: int, p2: int, pos: T, neg: T) -> Seq<Seq<T>> {
    set_entry(set_entry(set_entry(set_entry(g, p1, p1, pos), p2, p2, pos), p1, p2, neg), p2, p1, neg)
}

/// A square grid equal to its transpose.
pub open spec fn symmetric<T>(g: Seq<Seq<T>>) -> bool {
    forall|i: int, j: int| 0 <= i < g.len() && 0 <= j < g.len() ==> #[trigger] g[i][j] == g[j][i]
}

/// A grid with `n` rows of `n` entries.
pub open spec fn square<T>(g: Seq<Seq<T>>, n: nat) -> bool {
    g.len() == n && forall|i: int| 0 <= i < n ==> #[trigger] g[i].len() == n
}

/// Writes the spring's restoring blocks into `restore` and its residual
/// terms into `residuals`: `at_p2` at `p2`, then `at_p1` at `p1`.
pub fn stamp_spring<T: Copy, U: Copy, const N: usize>(
    restore: &mut [[T; N]; N],
    residuals: &mut [U; N],
    p1: usize,
    p2: usize,
    pos: T,
    neg: T,
    at_p1: U,
    at_p2: U,
)
    requires
        p1 < N,
        p2 < N,
    ensures
        grid(*final(restore)) == spring_stamp(grid(*old(restore)), p1 as int, p2 as int, pos, neg),
        final(residuals)@ == old(residuals)@.update(p2 as int, at_p2).update(p1 as int, at_p1),
        p1 != p2 ==> final(restore)@[p1 as int]@[p1 as int] == pos,
        p1 != p2 ==> final(restore)@[p2 as int]@[p2 as int] == pos,
        final(restore)@[p1 as int]@[p2 as int] == neg,
        final(restore)@[p2 as int]@[p1 as int] == neg,
        forall|i: int, j: int|
            0 <= i < N && 0 <= j < N && !((i == p1 || i == p2) && (j == p1 || j == p2))
                ==> #[trigger] final(restore)@[i]@[j] == old(restore)@[i]@[j],
{
    let ghost g0 = grid(*restore);
    residuals[p2] = at_p2;
    residuals[p1] = at_p1;

    let mut row: [T; N] = restore[p1];
    row[p1] = pos;
    restore[p1] = row;
    let ghost g1 = grid(*restore);
    assert(g1 =~= set_entry(g0, p1 as int, p1 as int, pos));

    let mut row: [T; N] = restore[p2];
    row[p2] = pos;
    restore[p2] = row;
    let ghost g2 = grid(*restore);
    assert(g2 =~= set_entry(g1, p2 as int, p2 as int, pos));

    let mut row: [T; N] = restore[p1];
    row[p2] = neg;
    restore[p1] = row;
    let ghost g3 = grid(*restore);
    assert(g3 =~= set_entry(g2, p1 as int, p2 as int, neg));

    let mut row: [T; N] = restore[p2];
    row[p1] = neg;
    restore[p2] = row;
    assert(grid(*restore) =~= set_entry(g3, p2 as int, p1 as int, neg));
    proof {
        lemma_grid_entries(*old(restore));
        lemma_grid_entries(*restore);
        lemma_spring_stamp_entries(g0, N as nat, p1 as int, p2 as int, pos, neg);
        assert forall|i: int, j: int|
            0 <= i < N && 0 <= j < N && !((i == p1 || i == p2) && (j == p1 || j == p2))
                implies #[trigger] restore@[i]@[j] == old(restore)@[i]@[j] by {
            assert(grid(*restore)[i][j] == g0[i][j]);
        }
    }
}

/// The stamp of a spring between two distinct points holds `pos` on both
/// diagonal entries and `neg` on both off-diagonal ones, and leaves every
/// other entry as it was; a spring from a point to itself leaves `neg` on
/// that point's diagonal entry.
pub proof fn lemma_spring_stamp_entries<T>(g: Seq<Seq<T>>, n: nat, p1: int, p2: int, pos: T, neg: T)
    requires
        square(g, n),
        0 <= p1 < n,
        0 <= p2 < n,
    ensures
        square(spring_stamp(g, p1, p2, pos, neg), n),
        p1 != p2 ==> spring_stamp(g, p1, p2, pos, neg)[p1][p1] == pos,
        p1 != p2 ==> spring_stamp(g, p1, p2, pos, neg)[p2][p2] == pos,
        spring_stamp(g, p1, p2, pos, neg)[p1][p2] == neg,
        spring_stamp(g, p1, p2, pos, neg)[p2][p1] == neg,
        forall|i: int, j: int|
            0 <= i < n && 0 <= j < n && !((i == p1 || i == p2) && (j == p1 || j == p2)) ==> #[trigger] spring_stamp(
                g,
                p1,
                p2,
                pos,
                neg,
            )[i][j] == g[i][j],
{
}

/// Stamping a spring keeps a symmetric restoring matrix symmetric.
pub proof fn lemma_spring_stamp_keeps_symmetry<T>(g: Seq<Seq<T>>, n: nat, p1: int, p2: int, pos: T, neg: T)
    requires
        square(g, n),
        symmetric(g),
        0 <= p1 < n,
        0 <= p2 < n,
    ensures
        symmetric(spring_stamp(g, p1, p2, pos, neg)),
{
    lemma_spring_stamp_entries(g, n, p1, p2, pos, neg);
    let s = spring_stamp(g, p1, p2, pos, neg);
    assert forall|i: int, j: int| 0 <= i < s.len() && 0 <= j < s.len() implies #[trigger] s[i][j] == s[j][i] by {
        if (i == p1 || i == p2) && (j == p1 || j == p2) {
        } else {
            assert(g[i][j] == g[j][i]);
        }
    }
}

} // verus!
