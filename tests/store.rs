use stratego::rules::{MoveError, MoveResponse};
use stratego::setup::InitSetupError;
use stratego::store::{changes_include, AccessError, CreateError, GameInfo, GameState, GameStoreState, InitState, JoinError, UserToken};
use stratego::{PieceType, Side};

fn standard_roster() -> [PieceType; 40] {
    let counts = [
        (PieceType::Flag, 1),
        (PieceType::Bomb, 6),
        (PieceType::Spy, 1),
        (PieceType::Scout, 8),
        (PieceType::Miner, 5),
        (PieceType::Sergeant, 4),
        (PieceType::Lieutenant, 4),
        (PieceType::Captain, 4),
        (PieceType::Major, 3),
        (PieceType::Colonel, 2),
        (PieceType::General, 1),
        (PieceType::Marshal, 1),
    ];
    let mut roster = [PieceType::Unknown; 40];
    let mut i = 0;
    for (t, n) in counts {
        for _ in 0..n {
            roster[i] = t;
            i += 1;
        }
    }
    roster
}

fn two_player_game(store: &mut GameStoreState) -> (u128, UserToken, UserToken) {
    let id = store.create_game(GameInfo { vs_bot: false, primary_side: Side::Red }).unwrap();
    let red = store.join_game(id).unwrap();
    let blue = store.join_game(id).unwrap();
    (id, red, blue)
}

#[test]
fn created_games_exist() {
    let mut store = GameStoreState::new();
    assert_eq!(store.create_game_with_id(7, GameInfo { vs_bot: false, primary_side: Side::Blue }), Ok(()));
    assert!(store.game_exists(7));
    assert!(!store.game_exists(8));
    let id = store.create_game(GameInfo { vs_bot: true, primary_side: Side::Red }).unwrap();
    assert!(store.game_exists(id));
    let state = store.get_game_state(7, 0).unwrap();
    assert_eq!(state.active_side, Side::Blue);
    assert!(!state.ready);
    assert!(state.board.0.iter().all(|c| c.is_none()));
}

#[test]
fn joining_assigns_primary_then_secondary_then_spectator() {
    let mut store = GameStoreState::default();
    assert_eq!(store.create_game_with_id(1, GameInfo { vs_bot: false, primary_side: Side::Blue }), Ok(()));
    assert_eq!(store.join_game_with_token(1, 10), Ok(UserToken { access_token: 10, side: Some(Side::Blue) }));
    assert_eq!(store.join_game_with_token(1, 11), Ok(UserToken { access_token: 11, side: Some(Side::Red) }));
    assert_eq!(store.join_game_with_token(1, 12), Ok(UserToken { access_token: 12, side: None }));
    assert_eq!(store.join_game_with_token(1, 11), Err(JoinError::TokenInUse));
    assert_eq!(store.join_game_with_token(2, 13), Err(JoinError::GameDoesNotExist));
    assert_eq!(store.join_game(2), Err(JoinError::GameDoesNotExist));
}

#[test]
fn bot_games_take_one_player() {
    let mut store = GameStoreState::new();
    assert_eq!(store.create_game_with_id(1, GameInfo { vs_bot: true, primary_side: Side::Red }), Ok(()));
    assert_eq!(store.join_game_with_token(1, 10).unwrap().side, Some(Side::Red));
    assert_eq!(store.join_game_with_token(1, 11).unwrap().side, None);
}

#[test]
fn game_state_helpers() {
    let mut g = GameState::new(Side::Red);
    assert!(!g.has_primary());
    assert!(!g.has_secondary());
    assert!(!g.ready());
    g.red_ready = true;
    assert!(!g.ready());
    g.blue_ready = true;
    assert!(g.ready());
    assert_eq!(g.client_side(3), None);
}

#[test]
fn reading_state_twice_gives_the_same_board() {
    let mut store = GameStoreState::new();
    let (id, red, blue) = two_player_game(&mut store);
    store.init_setup(id, &InitState { access_token: red.access_token, pieces: standard_roster() }).unwrap();
    store.init_setup(id, &InitState { access_token: blue.access_token, pieces: standard_roster() }).unwrap();
    let first = store.get_game_state(id, red.access_token).unwrap();
    let second = store.get_game_state(id, blue.access_token).unwrap();
    assert_eq!(first, second);
    assert_eq!(first.board, second.board);
    assert!(first.ready);
}

#[test]
fn setup_places_fresh_pieces_and_marks_ready() {
    let mut store = GameStoreState::new();
    let (id, red, _blue) = two_player_game(&mut store);
    assert_eq!(red.side, Some(Side::Red));
    assert_eq!(store.init_setup(id, &InitState { access_token: red.access_token, pieces: standard_roster() }), Ok(()));
    let board = store.get_game_state(id, red.access_token).unwrap().board;
    let roster = standard_roster();
    for i in 0..40 {
        let p = board.0[60 + i].unwrap();
        assert_eq!(p.owner, Side::Red);
        assert_eq!(p.piece_type, roster[i]);
    }
    let mut ids: Vec<u128> = board.0.iter().flatten().map(|p| p.id).collect();
    assert_eq!(ids.len(), 40);
    ids.sort();
    ids.dedup();
    assert_eq!(ids.len(), 40);
    assert!(!store.get_game_state(id, red.access_token).unwrap().ready);
}

#[test]
fn setup_errors() {
    let mut store = GameStoreState::new();
    assert_eq!(store.create_game_with_id(1, GameInfo { vs_bot: false, primary_side: Side::Red }), Ok(()));
    store.join_game_with_token(1, 10).unwrap();
    store.join_game_with_token(1, 11).unwrap();
    store.join_game_with_token(1, 12).unwrap();
    let ids: Vec<u128> = (100..140).collect();
    let mut bad = standard_roster();
    bad[0] = PieceType::Bomb;
    assert_eq!(store.init_setup_with_ids(1, 10, &bad, &ids), Err(InitSetupError::IncorrectPieceCount));
    assert_eq!(store.init_setup_with_ids(2, 10, &standard_roster(), &ids), Err(InitSetupError::GameDoesNotExist));
    assert_eq!(store.init_setup_with_ids(1, 12, &standard_roster(), &ids), Err(InitSetupError::InvalidAccess));
    assert_eq!(store.init_setup_with_ids(1, 99, &standard_roster(), &ids), Err(InitSetupError::InvalidAccess));
    let mut dup = ids.clone();
    dup[5] = dup[6];
    assert_eq!(store.init_setup_with_ids(1, 10, &standard_roster(), &dup), Err(InitSetupError::UnknownFail));
    assert_eq!(store.init_setup_with_ids(1, 10, &standard_roster(), &ids), Ok(()));
    let again: Vec<u128> = (139..179).collect();
    assert_eq!(store.init_setup_with_ids(1, 11, &standard_roster(), &again), Err(InitSetupError::UnknownFail));
    let fresh: Vec<u128> = (200..240).collect();
    assert_eq!(store.init_setup_with_ids(1, 11, &standard_roster(), &fresh), Ok(()));
    let board = store.get_game_state(1, 10).unwrap().board;
    assert_eq!(board.0[39].unwrap().id, 200);
    assert_eq!(board.0[0].unwrap().id, 239);
    assert!(store.get_game_state(1, 10).unwrap().ready);
}

#[test]
fn moves_need_the_owner_and_pass_the_turn() {
    let mut store = GameStoreState::new();
    assert_eq!(store.create_game_with_id(1, GameInfo { vs_bot: false, primary_side: Side::Red }), Ok(()));
    store.join_game_with_token(1, 10).unwrap();
    store.join_game_with_token(1, 11).unwrap();
    store.join_game_with_token(1, 12).unwrap();
    let red_ids: Vec<u128> = (100..140).collect();
    let blue_ids: Vec<u128> = (200..240).collect();
    store.init_setup_with_ids(1, 10, &standard_roster(), &red_ids).unwrap();
    store.init_setup_with_ids(1, 11, &standard_roster(), &blue_ids).unwrap();
    let board = store.get_game_state(1, 10).unwrap().board;
    let spy = board.0[67].unwrap();
    assert_eq!(spy.piece_type, PieceType::Spy);
    assert_eq!(board.find(spy.id), Some((7, 6)));
    assert_eq!(store.move_piece(1, 11, spy.id, 7, 5), Err(MoveError::PieceDoesNotExist(spy.id)));
    assert_eq!(store.move_piece(1, 12, spy.id, 7, 5), Err(MoveError::PieceDoesNotExist(spy.id)));
    assert_eq!(store.move_piece(2, 10, spy.id, 7, 5), Err(MoveError::PieceDoesNotExist(spy.id)));
    assert_eq!(store.move_piece(1, 10, spy.id, 7, 5), Err(MoveError::InvalidLocation));
    assert_eq!(store.get_game_state(1, 10).unwrap().active_side, Side::Red);
    let scout = board.0[68].unwrap();
    assert_eq!(scout.piece_type, PieceType::Scout);
    assert_eq!(store.move_piece(1, 10, scout.id, 8, 4), Ok(MoveResponse::Success));
    let state = store.get_game_state(1, 10).unwrap();
    assert_eq!(state.active_side, Side::Blue);
    assert_eq!(state.board.find(scout.id), Some((8, 4)));
    let blue_spy = state.board.0[32].unwrap();
    assert_eq!(blue_spy.piece_type, PieceType::Spy);
    assert_eq!(store.move_piece(1, 11, blue_spy.id, 1, 3), Err(MoveError::FriendlyFire));
    assert_eq!(store.get_game_state(1, 10).unwrap().active_side, Side::Blue);
    assert_eq!(store.move_piece(1, 11, blue_spy.id, 2, 4), Err(MoveError::InvalidLocation));
}

#[test]
fn client_access_and_change_events() {
    let mut store = GameStoreState::new();
    assert_eq!(store.create_game_with_id(1, GameInfo { vs_bot: false, primary_side: Side::Red }), Ok(()));
    store.join_game_with_token(1, 10).unwrap();
    store.join_game_with_token(1, 11).unwrap();
    store.join_game_with_token(1, 12).unwrap();
    assert_eq!(store.client_access(1, 10), Ok(Some(Side::Red)));
    assert_eq!(store.client_access(1, 12), Ok(None));
    assert_eq!(store.client_access(1, 13), Err(AccessError::NotAClient));
    assert_eq!(store.client_access(2, 10), Err(AccessError::GameDoesNotExist));
    assert!(changes_include(&vec![3, 1, 4], 1));
    assert!(!changes_include(&vec![3, 4], 1));
    assert!(!changes_include(&vec![], 1));
}

#[test]
fn game_ids_in_use_are_refused() {
    let mut store = GameStoreState::new();
    assert_eq!(store.create_game_with_id(3, GameInfo { vs_bot: false, primary_side: Side::Red }), Ok(()));
    assert_eq!(store.join_game_with_token(3, 10).unwrap().side, Some(Side::Red));
    assert_eq!(store.create_game_with_id(3, GameInfo { vs_bot: true, primary_side: Side::Blue }), Err(CreateError::IdInUse));
    let state = store.get_game_state(3, 10).unwrap();
    assert_eq!(state.active_side, Side::Red);
    assert_eq!(store.join_game_with_token(3, 11).unwrap().side, Some(Side::Blue));
}

#[test]
fn joining_an_empty_game_succeeds() {
    let mut store = GameStoreState::new();
    let id = store.create_game(GameInfo { vs_bot: false, primary_side: Side::Blue }).unwrap();
    let token = store.join_game(id).unwrap();
    assert_eq!(token.side, Some(Side::Blue));
    assert_eq!(store.client_access(id, token.access_token), Ok(Some(Side::Blue)));
}
