use stratego::board::Board;
use stratego::piece::{SideGard, PIECE_TYPE_COUNT};
use stratego::{Piece, PieceType, Side};

const ALL: [PieceType; 13] = [
    PieceType::Unknown,
    PieceType::Flag,
    PieceType::Spy,
    PieceType::Scout,
    PieceType::Miner,
    PieceType::Sergeant,
    PieceType::Lieutenant,
    PieceType::Captain,
    PieceType::Major,
    PieceType::Colonel,
    PieceType::General,
    PieceType::Marshal,
    PieceType::Bomb,
];

#[test]
fn inverted_pairs() {
    assert!(PieceType::Miner.triumphs(&PieceType::Bomb));
    assert!(!PieceType::Bomb.triumphs(&PieceType::Miner));
    assert!(PieceType::Spy.triumphs(&PieceType::Marshal));
    assert!(!PieceType::Marshal.triumphs(&PieceType::Spy));
}

#[test]
fn other_pairs_follow_rank() {
    for a in ALL {
        for b in ALL {
            let inverted = matches!(
                (a, b),
                (PieceType::Miner, PieceType::Bomb)
                    | (PieceType::Bomb, PieceType::Miner)
                    | (PieceType::Spy, PieceType::Marshal)
                    | (PieceType::Marshal, PieceType::Spy)
            );
            if !inverted {
                assert_eq!(a.triumphs(&b), a.rank() > b.rank());
            }
        }
    }
    assert!(PieceType::Marshal.triumphs(&PieceType::General));
    assert!(!PieceType::Scout.triumphs(&PieceType::Miner));
    assert!(!PieceType::Captain.triumphs(&PieceType::Captain));
}

#[test]
fn ranks_and_indices() {
    assert_eq!(PieceType::Flag.rank(), 0);
    assert_eq!(PieceType::Bomb.rank(), 11);
    assert_eq!(PieceType::Unknown.rank(), -1);
    for (i, t) in ALL.iter().enumerate() {
        assert_eq!(t.index(), i);
        assert_eq!(PieceType::from_index(i), *t);
    }
    assert_eq!(PIECE_TYPE_COUNT, 13);
}

#[test]
fn starting_counts_total_forty() {
    let total: usize = ALL.iter().map(|t| t.starting_count()).sum();
    assert_eq!(total, 40);
    assert_eq!(PieceType::Bomb.starting_count(), 6);
    assert_eq!(PieceType::Scout.starting_count(), 8);
    assert_eq!(PieceType::Miner.starting_count(), 5);
    assert_eq!(PieceType::Unknown.starting_count(), 0);
}

#[test]
fn movability() {
    assert!(!PieceType::Bomb.is_movable());
    assert!(!PieceType::Flag.is_movable());
    assert!(PieceType::Scout.is_movable());
    assert!(PieceType::Unknown.is_movable());
}

#[test]
fn sides_flip() {
    assert_eq!(Side::Red.not(), Side::Blue);
    assert_eq!(Side::Blue.not(), Side::Red);
}

#[test]
fn sides_by_name() {
    assert_eq!(Side::from_name("red"), Some(Side::Red));
    assert_eq!(Side::from_name("blue"), Some(Side::Blue));
    assert_eq!(Side::from_name("Red"), None);
    assert_eq!(Side::from_name(""), None);
    assert_eq!(SideGard::from_param("blue"), Ok(SideGard(Side::Blue)));
    assert_eq!(SideGard::from_param("green"), Err("green"));
}

#[test]
fn board_cells_and_lookup() {
    let mut b = Board::new();
    assert!(b.0.iter().all(|c| c.is_none()));
    let p = Piece { id: 7, owner: Side::Blue, piece_type: PieceType::Spy };
    b.set(3, 2, Some(p));
    assert_eq!(b.get(3, 2), Some(&Some(p)));
    assert_eq!(b.0[23], Some(p));
    assert_eq!(b.get(2, 3), Some(&None));
    assert_eq!(b.get(10, 0), None);
    assert_eq!(b.get(0, 10), None);
    assert_eq!(b.find(7), Some((3, 2)));
    assert_eq!(b.find(8), None);
    b.set(3, 2, None);
    assert_eq!(b.find(7), None);
}

#[test]
fn find_returns_first_in_linear_order() {
    let mut b = Board::new();
    let p = Piece { id: 7, owner: Side::Blue, piece_type: PieceType::Spy };
    b.set(9, 9, Some(p));
    b.set(1, 4, Some(p));
    assert_eq!(b.find(7), Some((1, 4)));
}

#[test]
fn board_counts_by_type() {
    let mut b = Board::new();
    let mk = |id, t| Some(Piece { id, owner: Side::Red, piece_type: t });
    b.set(0, 0, mk(1, PieceType::Bomb));
    b.set(1, 0, mk(2, PieceType::Bomb));
    b.set(9, 9, mk(3, PieceType::Scout));
    let counts = b.count();
    assert_eq!(counts.len(), 13);
    assert_eq!(counts[PieceType::Bomb.index()], 2);
    assert_eq!(counts[PieceType::Scout.index()], 1);
    assert_eq!(counts[PieceType::Flag.index()], 0);
    assert_eq!(b.count_of(PieceType::Bomb), 2);
    assert_eq!(Board::new().count_of(PieceType::Scout), 0);
}
