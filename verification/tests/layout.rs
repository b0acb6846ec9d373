use softbody::force::spring::stamp_spring;
use softbody::matrix::{identity, join_down, join_right, to_matrix, IOBlock};

#[test]
fn join_right_places_left_then_right() {
    let left: [[f64; 2]; 2] = [[1.0, 2.0], [3.0, 4.0]];
    let right: [[f64; 1]; 2] = [[5.0], [6.0]];
    let mut out = [[0.0f64; 3]; 2];
    join_right(&mut out, &left, &right);
    assert_eq!(out, [[1.0, 2.0, 5.0], [3.0, 4.0, 6.0]]);
}

#[test]
fn join_right_overwrites_every_entry() {
    let left: [[i32; 1]; 1] = [[7]];
    let right: [[i32; 2]; 1] = [[8, 9]];
    let mut out = [[-1i32; 3]; 1];
    join_right(&mut out, &left, &right);
    assert_eq!(out, [[7, 8, 9]]);
}

#[test]
fn join_down_places_top_then_bottom() {
    let top: [[i32; 2]; 1] = [[1, 2]];
    let bottom: [[i32; 2]; 2] = [[3, 4], [5, 6]];
    let mut out = [[0i32; 2]; 3];
    join_down(&mut out, &top, &bottom);
    assert_eq!(out, [[1, 2], [3, 4], [5, 6]]);
}

#[test]
fn join_with_empty_block() {
    let left: [[i32; 0]; 2] = [[], []];
    let right: [[i32; 2]; 2] = [[1, 2], [3, 4]];
    let mut out = [[0i32; 2]; 2];
    join_right(&mut out, &left, &right);
    assert_eq!(out, right);
    let none: [[i32; 2]; 0] = [];
    let mut out2 = [[0i32; 2]; 2];
    join_down(&mut out2, &right, &none);
    assert_eq!(out2, right);
}

#[test]
fn block_interchange_on_values() {
    let a: [[i32; 1]; 1] = [[1]];
    let b: [[i32; 1]; 1] = [[2]];
    let c: [[i32; 1]; 1] = [[3]];
    let d: [[i32; 1]; 1] = [[4]];
    let mut ab = [[0i32; 2]; 1];
    let mut cd = [[0i32; 2]; 1];
    join_right(&mut ab, &a, &b);
    join_right(&mut cd, &c, &d);
    let mut rows_first = [[0i32; 2]; 2];
    join_down(&mut rows_first, &ab, &cd);
    let mut ac = [[0i32; 1]; 2];
    let mut bd = [[0i32; 1]; 2];
    join_down(&mut ac, &a, &c);
    join_down(&mut bd, &b, &d);
    let mut cols_first = [[0i32; 2]; 2];
    join_right(&mut cols_first, &ac, &bd);
    assert_eq!(rows_first, cols_first);
    assert_eq!(rows_first, [[1, 2], [3, 4]]);
}

#[test]
fn identity_has_ones_on_the_diagonal() {
    let m: [[f64; 3]; 3] = identity(0.0, 1.0);
    assert_eq!(m, [[1.0, 0.0, 0.0], [0.0, 1.0, 0.0], [0.0, 0.0, 1.0]]);
    let e: [[u8; 0]; 0] = identity(0, 1);
    assert_eq!(e.len(), 0);
}

#[test]
fn to_matrix_interleaves_blocks() {
    let b = |base: i32| IOBlock { xx: base, xy: base + 1, yx: base + 2, yy: base + 3 };
    let blocks: [[IOBlock<i32>; 2]; 2] = [[b(0), b(10)], [b(20), b(30)]];
    let mut out = [[0i32; 4]; 4];
    to_matrix(&mut out, &blocks);
    assert_eq!(
        out,
        [
            [0, 2, 10, 12],
            [1, 3, 11, 13],
            [20, 22, 30, 32],
            [21, 23, 31, 33],
        ]
    );
}

#[test]
fn spring_stamp_between_two_points() {
    let mut restore = [[0i32; 3]; 3];
    let mut residuals = [0i32; 3];
    stamp_spring(&mut restore, &mut residuals, 0, 2, 5, -5, -7, 7);
    assert_eq!(restore, [[5, 0, -5], [0, 0, 0], [-5, 0, 5]]);
    assert_eq!(residuals, [-7, 0, 7]);
}

#[test]
fn spring_stamp_keeps_symmetry() {
    let mut restore = [[1i32, 2, 3], [2, 4, 5], [3, 5, 6]];
    let mut residuals = [0i32; 3];
    stamp_spring(&mut restore, &mut residuals, 1, 2, 9, 8, 0, 0);
    for i in 0..3 {
        for j in 0..3 {
            assert_eq!(restore[i][j], restore[j][i]);
        }
    }
    assert_eq!(restore, [[1, 2, 3], [2, 9, 8], [3, 8, 9]]);
}

#[test]
fn spring_stamp_on_one_point() {
    let mut restore = [[0i32; 2]; 2];
    let mut residuals = [0i32; 2];
    stamp_spring(&mut restore, &mut residuals, 1, 1, 5, -5, -7, 7);
    assert_eq!(restore, [[0, 0], [0, -5]]);
    assert_eq!(residuals, [0, -7]);
}
