use tetris_core::pieces::{
    move_piece, rotation_count, table_for, variant_for, Direction, Piece, PieceFactory,
    PieceIndicies, Variant,
};

const ALL_VARIANTS: [Variant; 7] = [
    Variant::O,
    Variant::I,
    Variant::L,
    Variant::J,
    Variant::S,
    Variant::Z,
    Variant::T,
];

#[test]
fn rotation_counts() {
    assert_eq!(rotation_count(Variant::O), 1);
    assert_eq!(rotation_count(Variant::I), 2);
    assert_eq!(rotation_count(Variant::L), 4);
    assert_eq!(rotation_count(Variant::J), 4);
    assert_eq!(rotation_count(Variant::S), 2);
    assert_eq!(rotation_count(Variant::Z), 2);
    assert_eq!(rotation_count(Variant::T), 4);
}

#[test]
fn new_piece_starts_at_first_state() {
    for v in ALL_VARIANTS {
        let p = Piece::new(v);
        assert_eq!(p.variant(), v);
        assert_eq!(p.rotation_index(), 0);
    }
}

#[test]
fn rotate_cw_decrements_with_wraparound() {
    let mut p = Piece::new(Variant::T);
    p.rotate_cw();
    assert_eq!(p.rotation_index(), 3);
    p.rotate_cw();
    assert_eq!(p.rotation_index(), 2);
    p.rotate_cw();
    assert_eq!(p.rotation_index(), 1);
    p.rotate_cw();
    assert_eq!(p.rotation_index(), 0);
}

#[test]
fn rotate_ccw_increments_modulo_length() {
    let mut p = Piece::new(Variant::Z);
    p.rotate_ccw();
    assert_eq!(p.rotation_index(), 1);
    p.rotate_ccw();
    assert_eq!(p.rotation_index(), 0);
}

#[test]
fn rotation_cycle_closes_for_every_variant() {
    for v in ALL_VARIANTS {
        let n = rotation_count(v);

        let mut p = Piece::new(v);
        for _ in 0..n {
            p.rotate_cw();
        }
        assert_eq!(p.rotation_index(), 0);

        let mut q = Piece::new(v);
        for _ in 0..n {
            q.rotate_ccw();
        }
        assert_eq!(q.rotation_index(), 0);
    }
}

#[test]
fn rotations_are_mutually_inverse() {
    for v in ALL_VARIANTS {
        for start in 0..rotation_count(v) {
            let mut p = Piece::new(v);
            for _ in 0..start {
                p.rotate_ccw();
            }
            assert_eq!(p.rotation_index(), start);

            p.rotate_cw();
            p.rotate_ccw();
            assert_eq!(p.rotation_index(), start);

            p.rotate_ccw();
            p.rotate_cw();
            assert_eq!(p.rotation_index(), start);
        }
    }
}

#[test]
fn square_table() {
    let t = table_for(Variant::O, 0);
    assert_eq!(t, [[1, 1, 0, 0], [1, 1, 0, 0], [0, 0, 0, 0], [0, 0, 0, 0]]);
}

#[test]
fn bar_tables() {
    assert_eq!(
        table_for(Variant::I, 0),
        [[1, 0, 0, 0], [1, 0, 0, 0], [1, 0, 0, 0], [1, 0, 0, 0]]
    );
    assert_eq!(
        table_for(Variant::I, 1),
        [[1, 1, 1, 1], [0, 0, 0, 0], [0, 0, 0, 0], [0, 0, 0, 0]]
    );
}

#[test]
fn corner_piece_tables() {
    assert_eq!(
        table_for(Variant::L, 0),
        [[1, 0, 0, 0], [1, 0, 0, 0], [1, 1, 0, 0], [0, 0, 0, 0]]
    );
    assert_eq!(
        table_for(Variant::L, 1),
        [[0, 0, 1, 0], [1, 1, 1, 0], [0, 0, 0, 0], [0, 0, 0, 0]]
    );
    assert_eq!(
        table_for(Variant::L, 2),
        [[1, 1, 0, 0], [0, 1, 0, 0], [0, 1, 0, 0], [0, 0, 0, 0]]
    );
    assert_eq!(
        table_for(Variant::L, 3),
        [[1, 1, 1, 0], [1, 0, 0, 0], [0, 0, 0, 0], [0, 0, 0, 0]]
    );
    assert_eq!(
        table_for(Variant::J, 0),
        [[0, 1, 0, 0], [0, 1, 0, 0], [1, 1, 0, 0], [0, 0, 0, 0]]
    );
    assert_eq!(
        table_for(Variant::J, 1),
        [[1, 1, 1, 0], [0, 0, 1, 0], [0, 0, 0, 0], [0, 0, 0, 0]]
    );
    assert_eq!(
        table_for(Variant::J, 2),
        [[1, 1, 0, 0], [1, 0, 0, 0], [1, 0, 0, 0], [0, 0, 0, 0]]
    );
    assert_eq!(
        table_for(Variant::J, 3),
        [[1, 0, 0, 0], [1, 1, 1, 0], [0, 0, 0, 0], [0, 0, 0, 0]]
    );
}

#[test]
fn skew_piece_tables() {
    assert_eq!(
        table_for(Variant::S, 0),
        [[1, 1, 0, 0], [0, 1, 1, 0], [0, 0, 0, 0], [0, 0, 0, 0]]
    );
    assert_eq!(
        table_for(Variant::S, 1),
        [[0, 1, 0, 0], [1, 1, 0, 0], [1, 0, 0, 0], [0, 0, 0, 0]]
    );
    assert_eq!(
        table_for(Variant::Z, 0),
        [[0, 1, 1, 0], [1, 1, 0, 0], [0, 0, 0, 0], [0, 0, 0, 0]]
    );
    assert_eq!(
        table_for(Variant::Z, 1),
        [[1, 0, 0, 0], [1, 1, 0, 0], [0, 1, 0, 0], [0, 0, 0, 0]]
    );
}

#[test]
fn tee_piece_tables() {
    assert_eq!(
        table_for(Variant::T, 0),
        [[1, 1, 1, 0], [0, 1, 0, 0], [0, 0, 0, 0], [0, 0, 0, 0]]
    );
    assert_eq!(
        table_for(Variant::T, 1),
        [[1, 0, 0, 0], [1, 1, 0, 0], [1, 0, 0, 0], [0, 0, 0, 0]]
    );
    assert_eq!(
        table_for(Variant::T, 2),
        [[1, 1, 0, 0], [1, 0, 0, 0], [1, 0, 0, 0], [0, 0, 0, 0]]
    );
    assert_eq!(
        table_for(Variant::T, 3),
        [[1, 0, 0, 0], [1, 1, 1, 0], [0, 0, 0, 0], [0, 0, 0, 0]]
    );
}

#[test]
fn rotation_changes_served_table() {
    let mut p = Piece::new(Variant::I);
    let upright = p.get_table();
    p.rotate_ccw();
    let flat = p.get_table();
    assert_ne!(upright, flat);
    assert_eq!(upright, table_for(Variant::I, 0));
    assert_eq!(flat, table_for(Variant::I, 1));
}

#[test]
fn variant_for_each_index() {
    assert_eq!(variant_for(0), Variant::O);
    assert_eq!(variant_for(1), Variant::I);
    assert_eq!(variant_for(2), Variant::L);
    assert_eq!(variant_for(3), Variant::J);
    assert_eq!(variant_for(4), Variant::S);
    assert_eq!(variant_for(5), Variant::Z);
    assert_eq!(variant_for(6), Variant::T);
}

#[test]
fn factory_hands_out_fresh_pieces() {
    let mut factory = PieceFactory {};
    for _ in 0..50 {
        let p = factory.create_piece();
        assert_eq!(p.rotation_index(), 0);
        assert!(ALL_VARIANTS.contains(&p.variant()));
    }
}

#[test]
fn moves_step_one_cell() {
    let mut pos = PieceIndicies { i: 10, j: 5 };
    move_piece(&mut pos, Direction::Left);
    assert_eq!((pos.i, pos.j), (10, 4));
    move_piece(&mut pos, Direction::Right);
    assert_eq!((pos.i, pos.j), (10, 5));
    move_piece(&mut pos, Direction::Up);
    assert_eq!((pos.i, pos.j), (9, 5));
    move_piece(&mut pos, Direction::Down);
    assert_eq!((pos.i, pos.j), (10, 5));
}
