use tetris_core::matrix::{check_for_colision, fix_piece, Matrix};
use tetris_core::pieces::PieceIndicies;

#[test]
fn test_1() {
    let matrix = Matrix::try_new(10, 20).unwrap();
    let table = [[1, 1, 0, 0], [1, 1, 0, 0], [0, 0, 0, 0], [0, 0, 0, 0]];
    let indicies = PieceIndicies { i: 0, j: 0 };

    let collided = check_for_colision(&matrix, &table, &indicies);

    assert!(collided == false);
}

#[test]
fn test_2() {
    let mut matrix = Matrix::try_new(10, 20).unwrap();
    let table = [[1, 1, 0, 0], [1, 1, 0, 0], [0, 0, 0, 0], [0, 0, 0, 0]];
    let indicies = PieceIndicies { i: 0, j: 1 };

    matrix.set(0, 1);

    let collided = check_for_colision(&matrix, &table, &indicies);

    assert!(collided == true);
}

#[test]
fn test_3() {
    let mut matrix = Matrix::try_new(10, 20).unwrap();
    let table = [[1, 1, 0, 0], [1, 1, 0, 0], [0, 0, 0, 0], [0, 0, 0, 0]];
    let indicies = PieceIndicies { i: 3, j: 3 };

    matrix.set(2, 2);
    matrix.set(3, 2);
    matrix.set(4, 2);
    matrix.set(5, 2);
    matrix.set(5, 3);
    matrix.set(5, 4);
    matrix.set(5, 5);
    matrix.set(4, 5);
    matrix.set(3, 5);
    matrix.set(2, 5);
    matrix.set(2, 4);
    matrix.set(2, 3);

    let collided = check_for_colision(&matrix, &table, &indicies);

    assert!(collided == false);
}

#[test]
fn minimum_size_rejected() {
    assert!(Matrix::try_new(6, 20).is_none());
    assert!(Matrix::try_new(10, 9).is_none());
    assert!(Matrix::try_new(7, 10).is_some());
}

#[test]
fn dimensions_reported() {
    let matrix = Matrix::try_new(7, 12).unwrap();
    assert_eq!(matrix.width(), 7);
    assert_eq!(matrix.height(), 12);
}

#[test]
fn fresh_grid_is_empty() {
    let matrix = Matrix::try_new(8, 11).unwrap();
    for r in 0..11 {
        for c in 0..8 {
            assert_eq!(matrix.get(r, c), 0);
        }
    }
}

#[test]
fn set_and_clear_one_cell() {
    let mut matrix = Matrix::try_new(10, 20).unwrap();
    matrix.set(4, 6);
    assert_eq!(matrix.get(4, 6), 1);
    assert_eq!(matrix.get(6, 4), 0);
    matrix.clear(4, 6);
    assert_eq!(matrix.get(4, 6), 0);
}

#[test]
fn collision_past_every_edge() {
    let matrix = Matrix::try_new(10, 20).unwrap();
    let table = [[1, 1, 0, 0], [1, 1, 0, 0], [0, 0, 0, 0], [0, 0, 0, 0]];

    let above = PieceIndicies { i: -1, j: 0 };
    assert!(check_for_colision(&matrix, &table, &above));

    let left = PieceIndicies { i: 0, j: -1 };
    assert!(check_for_colision(&matrix, &table, &left));

    let below = PieceIndicies { i: 19, j: 0 };
    assert!(check_for_colision(&matrix, &table, &below));

    let right = PieceIndicies { i: 0, j: 9 };
    assert!(check_for_colision(&matrix, &table, &right));
}

#[test]
fn no_collision_inside_every_corner() {
    let matrix = Matrix::try_new(10, 20).unwrap();
    let table = [[1, 1, 0, 0], [1, 1, 0, 0], [0, 0, 0, 0], [0, 0, 0, 0]];

    for (i, j) in [(0, 0), (0, 8), (18, 0), (18, 8)] {
        let indicies = PieceIndicies { i, j };
        assert!(!check_for_colision(&matrix, &table, &indicies));
    }
}

#[test]
fn empty_table_never_collides() {
    let matrix = Matrix::try_new(10, 20).unwrap();
    let table = [[0; 4]; 4];
    let far_out = PieceIndicies { i: -100, j: 1000 };
    assert!(!check_for_colision(&matrix, &table, &far_out));
}

#[test]
fn fix_piece_burns_exact_footprint() {
    let mut matrix = Matrix::try_new(10, 20).unwrap();
    let table = [[0, 1, 0, 0], [0, 1, 0, 0], [1, 1, 0, 0], [0, 0, 0, 0]];
    let indicies = PieceIndicies { i: 5, j: 3 };

    fix_piece(&mut matrix, &table, &indicies);

    for r in 0..20i32 {
        for c in 0..10i32 {
            let expected = matches!((r - 5, c - 3), (0, 1) | (1, 1) | (2, 0) | (2, 1));
            assert_eq!(matrix.get(r as usize, c as usize), if expected { 1 } else { 0 });
        }
    }
}

#[test]
fn disjoint_commits_union() {
    let mut matrix = Matrix::try_new(10, 20).unwrap();
    let square = [[1, 1, 0, 0], [1, 1, 0, 0], [0, 0, 0, 0], [0, 0, 0, 0]];

    let first = PieceIndicies { i: 18, j: 0 };
    let second = PieceIndicies { i: 18, j: 2 };
    fix_piece(&mut matrix, &square, &first);
    fix_piece(&mut matrix, &square, &second);

    for r in 0..20 {
        for c in 0..10 {
            let in_first = (18..20).contains(&r) && (0..2).contains(&c);
            let in_second = (18..20).contains(&r) && (2..4).contains(&c);
            let expected = if in_first || in_second { 1 } else { 0 };
            assert_eq!(matrix.get(r, c), expected);
        }
    }
}

#[test]
fn commit_keeps_previous_cells() {
    let mut matrix = Matrix::try_new(10, 20).unwrap();
    matrix.set(0, 9);
    let square = [[1, 1, 0, 0], [1, 1, 0, 0], [0, 0, 0, 0], [0, 0, 0, 0]];
    fix_piece(&mut matrix, &square, &PieceIndicies { i: 18, j: 0 });
    assert_eq!(matrix.get(0, 9), 1);
    assert_eq!(matrix.get(18, 0), 1);
}

#[test]
fn dump_lists_rows_of_digits() {
    let mut matrix = Matrix::try_new(7, 10).unwrap();
    matrix.set(0, 0);
    matrix.set(1, 6);

    let text = matrix.dump();
    let mut expected = String::new();
    expected.push_str("1 0 0 0 0 0 0 \n");
    expected.push_str("0 0 0 0 0 0 1 \n");
    for _ in 2..10 {
        expected.push_str("0 0 0 0 0 0 0 \n");
    }
    assert_eq!(text, expected);
}
