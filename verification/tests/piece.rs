use tetrs::field::new_field;
use tetrs::tetromino::Kind;
use tetrs::tetromino::Tetromino;

fn piece(kind: Kind, x: isize, y: usize, current_state: u8) -> Tetromino {
    Tetromino { kind, x, y, current_state }
}

#[test]
fn colors_are_one_to_seven_in_catalog_order() {
    let kinds = [Kind::I, Kind::J, Kind::L, Kind::O, Kind::S, Kind::Z, Kind::T];
    for (i, kind) in kinds.iter().enumerate() {
        assert_eq!(kind.color(), i as u8 + 1);
    }
}

#[test]
fn state_counts_per_kind() {
    assert_eq!(Kind::O.num_states(), 1);
    assert_eq!(Kind::I.num_states(), 2);
    assert_eq!(Kind::S.num_states(), 2);
    assert_eq!(Kind::Z.num_states(), 2);
    assert_eq!(Kind::J.num_states(), 4);
    assert_eq!(Kind::L.num_states(), 4);
    assert_eq!(Kind::T.num_states(), 4);
}

#[test]
fn every_mask_has_four_cells_of_its_color() {
    let kinds = [Kind::I, Kind::J, Kind::L, Kind::O, Kind::S, Kind::Z, Kind::T];
    for kind in kinds.iter() {
        for state in 0..kind.num_states() {
            let mask = kind.mask(state);
            let mut occupied = 0;
            for row in mask.iter() {
                for cell in row.iter() {
                    assert!(*cell == 0 || *cell == kind.color());
                    if *cell != 0 {
                        occupied += 1;
                    }
                }
            }
            assert_eq!(occupied, 4);
        }
    }
}

#[test]
fn mask_lookup_returns_the_table_entry() {
    assert_eq!(
        Kind::I.mask(0),
        [[1, 1, 1, 1], [0, 0, 0, 0], [0, 0, 0, 0], [0, 0, 0, 0]]
    );
    assert_eq!(
        Kind::I.mask(1),
        [[0, 1, 0, 0], [0, 1, 0, 0], [0, 1, 0, 0], [0, 1, 0, 0]]
    );
    assert_eq!(
        Kind::T.mask(2),
        [[0, 7, 0, 0], [7, 7, 7, 0], [0, 0, 0, 0], [0, 0, 0, 0]]
    );
    let t = Tetromino::new(Kind::T);
    assert_eq!(t.occupancy_at(3), Kind::T.mask(3));
}

#[test]
fn new_piece_stands_at_its_spawn_position() {
    let t = Tetromino::new(Kind::T);
    assert_eq!((t.kind, t.x, t.y, t.current_state), (Kind::T, 4, 0, 0));
    let o = Tetromino::new(Kind::O);
    assert_eq!((o.kind, o.x, o.y, o.current_state), (Kind::O, 5, 0, 0));
}

#[test]
fn fits_on_empty_field_inside_bounds() {
    let field = new_field();
    let t = Tetromino::new(Kind::T);
    assert!(t.fits(&field, 4, 0, 0));
    assert!(t.fits(&field, 0, 0, 0));
    assert!(t.fits(&field, 7, 14, 0));
}

#[test]
fn fits_refuses_occupied_cell_out_of_bounds() {
    let field = new_field();
    let t = Tetromino::new(Kind::T);
    // T at state 0 occupies columns 0..=2 of its mask.
    assert!(!t.fits(&field, -1, 0, 0));
    assert!(!t.fits(&field, 8, 0, 0));
    // and rows 0..=1.
    assert!(!t.fits(&field, 4, 15, 0));
    assert!(!t.fits(&field, 4, 16, 0));
    assert!(!t.fits(&field, 4, usize::MAX, 0));
    assert!(!t.fits(&field, isize::MAX, 0, 0));
    assert!(!t.fits(&field, isize::MIN, 0, 0));
}

#[test]
fn fits_ignores_empty_mask_cells_beyond_the_edges() {
    let field = new_field();
    let i = Tetromino::new(Kind::I);
    // Upright I occupies column 1 only: its empty column 0 may hang off the left edge,
    // its empty columns 2 and 3 off the right edge.
    assert!(i.fits(&field, -1, 0, 1));
    assert!(i.fits(&field, 8, 0, 1));
    assert!(!i.fits(&field, -2, 0, 1));
    assert!(!i.fits(&field, 9, 0, 1));
    // Flat I occupies row 0 only: its empty rows may hang below the floor.
    assert!(i.fits(&field, 0, 15, 0));
    assert!(i.fits(&field, 6, 15, 0));
    assert!(!i.fits(&field, 7, 15, 0));
}

#[test]
fn fits_refuses_occupied_field_cell_only_under_occupied_mask_cell() {
    let mut field = new_field();
    field[1][4] = 3;
    let t = Tetromino::new(Kind::T);
    // T state 0: row 1 of the mask is occupied at column 1 only.
    assert!(t.fits(&field, 4, 0, 0));
    assert!(!t.fits(&field, 3, 0, 0));
    assert!(!t.fits(&field, 4, 1, 0));
    assert!(t.fits(&field, 5, 0, 0));
}

#[test]
fn try_move_commits_only_when_it_fits() {
    let field = new_field();
    let mut t = Tetromino::new(Kind::T);
    assert!(t.try_move(&field, 3, 2));
    assert_eq!((t.x, t.y, t.current_state), (3, 2, 0));
    assert!(!t.try_move(&field, -1, 2));
    assert_eq!((t.x, t.y, t.current_state), (3, 2, 0));
    assert!(!t.try_move(&field, 3, 15));
    assert_eq!((t.x, t.y, t.current_state), (3, 2, 0));
}

#[test]
fn rotate_cycles_through_the_states() {
    let field = new_field();
    let mut t = piece(Kind::T, 4, 4, 0);
    t.rotate(&field);
    assert_eq!(t.current_state, 1);
    t.rotate(&field);
    assert_eq!(t.current_state, 2);
    t.rotate(&field);
    assert_eq!(t.current_state, 3);
    t.rotate(&field);
    assert_eq!(t.current_state, 0);
    assert_eq!((t.x, t.y), (4, 4));
}

#[test]
fn rotating_num_states_times_restores_the_state() {
    let field = new_field();
    let kinds = [Kind::I, Kind::J, Kind::L, Kind::O, Kind::S, Kind::Z, Kind::T];
    for kind in kinds.iter() {
        for start in 0..kind.num_states() {
            let mut p = piece(*kind, 3, 5, start);
            for _ in 0..kind.num_states() {
                p.rotate(&field);
            }
            assert_eq!(p, piece(*kind, 3, 5, start));
        }
    }
}

#[test]
fn rotation_that_gets_stuck_does_not_come_back() {
    let mut field = new_field();
    // J at (3, 5): states 0 and 1 fit, state 2 needs the cell (6, 5).
    field[6][5] = 1;
    let mut j = piece(Kind::J, 3, 5, 0);
    assert!(j.fits(&field, 3, 5, 0));
    assert!(j.fits(&field, 3, 5, 1));
    assert!(!j.fits(&field, 3, 5, 2));
    for _ in 0..4 {
        j.rotate(&field);
    }
    assert_eq!(j.current_state, 1);
}

#[test]
fn rotate_is_refused_at_the_wall_without_a_kick() {
    let field = new_field();
    // Upright I in the last column; the flat state would need columns 8..=11.
    let mut i = piece(Kind::I, 8, 0, 1);
    assert!(i.test_current_position(&field));
    i.rotate(&field);
    assert_eq!((i.x, i.y, i.current_state), (8, 0, 1));
}

#[test]
fn rotate_is_refused_by_a_block() {
    let mut field = new_field();
    field[6][4] = 2;
    // T state 0 at (4, 5); state 1 occupies (0,1), (1,0), (1,1), (2,1): cell (6, 4) is (1, 0).
    let mut t = piece(Kind::T, 4, 5, 0);
    t.rotate(&field);
    assert_eq!(t.current_state, 0);
}

#[test]
fn test_current_position_is_fits_where_it_stands() {
    let mut field = new_field();
    let t = Tetromino::new(Kind::T);
    assert!(t.test_current_position(&field));
    field[0][5] = 1;
    assert!(!t.test_current_position(&field));
}

#[test]
fn hard_drop_reaches_the_floor_on_an_empty_field() {
    let field = new_field();
    let mut t = Tetromino::new(Kind::T);
    t.hard_drop(&field);
    assert_eq!((t.x, t.y, t.current_state), (4, 14, 0));
    assert!(t.test_current_position(&field));
    assert!(!t.try_move(&field, 4, 15));
    let mut i = Tetromino::new(Kind::I);
    i.hard_drop(&field);
    assert_eq!((i.x, i.y), (4, 15));
    let mut upright = piece(Kind::I, 4, 0, 1);
    upright.hard_drop(&field);
    assert_eq!((upright.x, upright.y), (4, 12));
}

#[test]
fn hard_drop_stops_on_the_first_obstacle() {
    let mut field = new_field();
    field[10][5] = 4;
    // A gap below the obstacle must not be reached.
    let mut t = Tetromino::new(Kind::T);
    t.hard_drop(&field);
    // T state 0 occupies (0,0..=2) and (1,1): column 5 is its middle column.
    assert_eq!(t.y, 8);
    let mut again = t;
    again.hard_drop(&field);
    assert_eq!(again, t);
}

#[test]
fn repeated_try_move_down_equals_hard_drop() {
    let mut field = new_field();
    field[12][4] = 1;
    let kinds = [Kind::I, Kind::J, Kind::L, Kind::O, Kind::S, Kind::Z, Kind::T];
    for kind in kinds.iter() {
        let mut stepwise = Tetromino::new(*kind);
        let mut steps = 0;
        while stepwise.try_move(&field, stepwise.x, stepwise.y + 1) {
            steps += 1;
            assert!(steps < 16);
        }
        let mut dropped = Tetromino::new(*kind);
        dropped.hard_drop(&field);
        assert_eq!(stepwise, dropped);
        assert!(dropped.test_current_position(&field));
        assert!(!dropped.fits(&field, dropped.x, dropped.y + 1, dropped.current_state));
    }
}
