use stratego::board::Board;
use stratego::setup::{check_ids_fresh, place_roster, validate_roster, InitSetupError};
use stratego::{Piece, PieceType, Side};

fn standard_roster() -> [PieceType; 40] {
    let counts = [
        (PieceType::Bomb, 6),
        (PieceType::Marshal, 1),
        (PieceType::General, 1),
        (PieceType::Colonel, 2),
        (PieceType::Major, 3),
        (PieceType::Captain, 4),
        (PieceType::Lieutenant, 4),
        (PieceType::Sergeant, 4),
        (PieceType::Miner, 5),
        (PieceType::Scout, 8),
        (PieceType::Spy, 1),
        (PieceType::Flag, 1),
    ];
    let mut roster = [PieceType::Unknown; 40];
    let mut i = 0;
    for (t, n) in counts {
        for _ in 0..n {
            roster[i] = t;
            i += 1;
        }
    }
    assert_eq!(i, 40);
    roster
}

#[test]
fn standard_roster_is_accepted() {
    assert_eq!(validate_roster(&standard_roster()), Ok(()));
    let mut shuffled = standard_roster();
    shuffled.reverse();
    assert_eq!(validate_roster(&shuffled), Ok(()));
}

#[test]
fn five_bombs_are_rejected() {
    let mut roster = standard_roster();
    let bomb = roster.iter().position(|t| *t == PieceType::Bomb).unwrap();
    roster[bomb] = PieceType::Scout;
    assert_eq!(validate_roster(&roster), Err(InitSetupError::IncorrectPieceCount));
}

#[test]
fn unknown_pieces_and_swaps_are_rejected() {
    let mut roster = standard_roster();
    roster[39] = PieceType::Unknown;
    assert_eq!(validate_roster(&roster), Err(InitSetupError::IncorrectPieceCount));
    let mut roster = standard_roster();
    let flag = roster.iter().position(|t| *t == PieceType::Flag).unwrap();
    roster[flag] = PieceType::Marshal;
    assert_eq!(validate_roster(&roster), Err(InitSetupError::IncorrectPieceCount));
    assert_eq!(validate_roster(&[PieceType::Scout; 40]), Err(InitSetupError::IncorrectPieceCount));
}

#[test]
fn primary_side_fills_the_last_four_rows_in_order() {
    let roster = standard_roster();
    let ids: Vec<u128> = (100..140).collect();
    let mut b = Board::new();
    place_roster(&mut b, Side::Blue, true, &roster, &ids);
    for i in 0..40 {
        assert_eq!(b.0[60 + i], Some(Piece { id: 100 + i as u128, owner: Side::Blue, piece_type: roster[i] }));
    }
    assert!(b.0[..60].iter().all(|c| c.is_none()));
}

#[test]
fn other_side_fills_the_first_four_rows_mirrored() {
    let roster = standard_roster();
    let ids: Vec<u128> = (100..140).collect();
    let mut b = Board::new();
    place_roster(&mut b, Side::Red, false, &roster, &ids);
    for i in 0..40 {
        assert_eq!(b.0[39 - i], Some(Piece { id: 100 + i as u128, owner: Side::Red, piece_type: roster[i] }));
    }
    assert!(b.0[40..].iter().all(|c| c.is_none()));
    assert_eq!(b.get(9, 3), Some(&Some(Piece { id: 100, owner: Side::Red, piece_type: PieceType::Bomb })));
}

#[test]
fn identities_must_be_fresh() {
    let mut b = Board::new();
    b.set(0, 0, Some(Piece { id: 5, owner: Side::Red, piece_type: PieceType::Spy }));
    assert!(check_ids_fresh(&b, &vec![1, 2, 3]));
    assert!(!check_ids_fresh(&b, &vec![1, 2, 1]));
    assert!(!check_ids_fresh(&b, &vec![1, 5, 3]));
    assert!(check_ids_fresh(&b, &vec![]));
}
