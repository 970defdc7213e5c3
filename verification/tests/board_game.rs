//! Tests for the board-game coordinates.

use std::collections::HashSet;

use rzm::{xdelta, ydelta, Board, Coord, Direction};

#[test]
fn test_coord_equals() {
    let c1 = Coord::new(1, 1);
    let c2 = Coord::new(1, 1);
    let c3 = Coord::new(1, 2);
    let c4 = Coord::new(2, 1);

    assert_eq!(c1, c2);
    assert!(c1 != c3);
    assert!(c2 != c4);
    assert!(c3 != c4);
}

#[test]
fn test_coord_direction() {
    let c = Coord::new(5, 5);

    assert_eq!(Coord::new(4, 5), c.in_direction(Direction::West));
    assert_eq!(Coord::new(6, 5), c.in_direction(Direction::East));
    assert_eq!(Coord::new(5, 4), c.in_direction(Direction::North));
    assert_eq!(Coord::new(5, 6), c.in_direction(Direction::South));
}

#[test]
fn test_hash() {
    let c1 = Coord::new(1, 1);
    let c2 = Coord::new(1, 1);
    let c3 = Coord::new(1, 2);

    let mut set = HashSet::<Coord>::new();
    set.insert(c1);
    assert!(set.contains(&c1));
    assert!(set.contains(&c2));
    assert!(!set.contains(&c3));
}

#[test]
#[allow(non_snake_case)]
fn testDirection() {
    assert_eq!(0, xdelta(Direction::North));
    assert_eq!(0, xdelta(Direction::South));
    assert_eq!(1, xdelta(Direction::East));
    assert_eq!(-1, xdelta(Direction::West));
    assert_eq!(-1, ydelta(Direction::North));
    assert_eq!(1, ydelta(Direction::South));
    assert_eq!(0, ydelta(Direction::East));
    assert_eq!(0, ydelta(Direction::West));
}

fn assert_eq_sets(s1: Vec<Coord>, s2: Vec<Coord>) {
    let set1: HashSet<Coord> = s1.into_iter().collect();
    let set2: HashSet<Coord> = s2.into_iter().collect();
    assert_eq!(set1.len(), set2.len());
    assert!(set1 == set2);
}

fn coords(pairs: &[(i8, i8)]) -> Vec<Coord> {
    pairs.iter().map(|&(r, c)| Coord::new(r, c)).collect()
}

#[test]
fn test_board_size() {
    let b1 = Board::new(3, 4, Vec::new());
    assert_eq!(3, b1.rows());
    assert_eq!(4, b1.cols());
    assert_eq!(12, b1.possible_locations().len());

    let b2 = Board::new(7, 9, Vec::new());
    assert_eq!(7, b2.rows());
    assert_eq!(9, b2.cols());
    assert_eq!(63, b2.possible_locations().len());
}

#[test]
fn test_board_macro() {
    let board = Board::new(2, 3, Vec::new());
    assert_eq!(2, board.rows());
    assert_eq!(3, board.cols());
    assert_eq_sets(
        board.possible_locations(),
        coords(&[(0, 0), (0, 1), (0, 2), (1, 0), (1, 1), (1, 2)]),
    );
    assert_eq_sets(
        board.possible_locations(),
        board.coords_for_string(&b"......".to_vec(), b'.').unwrap(),
    );
}

#[test]
fn test_board_with_islands() {
    let board = Board::new(3, 4, coords(&[(1, 2), (2, 3), (0, 0)]));
    assert_eq!(3, board.rows());
    assert_eq!(4, board.cols());
    assert_eq!(9, board.possible_locations().len());
    assert_eq_sets(
        board.possible_locations(),
        board.coords_for_string(&b"X.....X....X".to_vec(), b'.').unwrap(),
    );
}

#[test]
fn test_parse() {
    let board = Board::parse(2, 3, &b"......".to_vec()).unwrap();
    assert_eq!(6, board.possible_locations().len());
    assert_eq_sets(
        board.possible_locations(),
        coords(&[(0, 0), (0, 1), (0, 2), (1, 0), (1, 1), (1, 2)]),
    );

    let board = Board::parse(2, 3, &b"..X..X".to_vec()).unwrap();
    assert_eq!(4, board.possible_locations().len());
    assert_eq_sets(
        board.possible_locations(),
        coords(&[(0, 0), (0, 1), (1, 0), (1, 1)]),
    );
}

#[test]
fn test_string_to_coords() {
    let s = b"..XX..".to_vec();
    let board = Board::parse(2, 3, &s).unwrap();
    let dot_coords = board.coords_for_string(&s, b'.').unwrap();
    assert_eq!(4, dot_coords.len());
    assert_eq_sets(dot_coords, coords(&[(0, 0), (0, 1), (1, 1), (1, 2)]));

    let x_coords = board.coords_for_string(&s, b'X').unwrap();
    assert_eq!(2, x_coords.len());
    assert_eq_sets(x_coords, coords(&[(0, 2), (1, 0)]));
}

#[test]
fn test_is_valid_coord() {
    let board = Board::parse(2, 3, &b"..XX..".to_vec()).unwrap();
    assert!(board.is_valid_coord(Coord::new(0, 0)));
    assert!(board.is_valid_coord(Coord::new(1, 2)));
    assert!(!board.is_valid_coord(Coord::new(0, 2))); // island
    assert!(!board.is_valid_coord(Coord::new(1, 0))); // island
    assert!(!board.is_valid_coord(Coord::new(-1, 1)));
    assert!(!board.is_valid_coord(Coord::new(2, -1)));
    assert!(!board.is_valid_coord(Coord::new(3, 1)));
    assert!(!board.is_valid_coord(Coord::new(2, 2)));
}

#[test]
fn test_move() {
    let mut board = Board::parse(2, 3, &b"..XX..".to_vec()).unwrap();
    assert_eq_sets(
        board.possible_locations(),
        board.coords_for_string(&b"..XX..".to_vec(), b'.').unwrap(),
    );

    board.north();
    assert_eq_sets(
        board.possible_locations(),
        board.coords_for_string(&b"X.XXXX".to_vec(), b'.').unwrap(),
    );
    board.west();
    assert_eq_sets(
        board.possible_locations(),
        board.coords_for_string(&b".XXXXX".to_vec(), b'.').unwrap(),
    );

    let mut board = Board::parse(2, 3, &b"..XX..".to_vec()).unwrap();
    assert_eq_sets(
        board.possible_locations(),
        board.coords_for_string(&b"..XX..".to_vec(), b'.').unwrap(),
    );
    board.south();
    assert_eq_sets(
        board.possible_locations(),
        board.coords_for_string(&b"XXXX.X".to_vec(), b'.').unwrap(),
    );
    board.east();
    assert_eq_sets(
        board.possible_locations(),
        board.coords_for_string(&b"XXXXX.".to_vec(), b'.').unwrap(),
    );
}

#[test]
fn test_alpha_board() {
    let board = Board::alpha().unwrap();
    assert_eq!(15, board.rows());
    assert_eq!(15, board.cols());
    // 225 cells minus the 31 dead ones.
    assert_eq!(194, board.possible_locations().len());
}
