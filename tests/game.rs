use ttt_server::error::GameError;
use ttt_server::instance::{GameInstance, Player};
use ttt_server::protocol::{client_step, ClientAction, ClientRequest, GameLoop, ServerResponse};
use ttt_server::registry::Registry;
use ttt_server::tile::Tile;

fn slot(tile: Tile, addr: Option<&str>, id: &str) -> Player {
    Player { tile, addr: addr.map(|a| a.to_string()), game_id: id.to_string() }
}

fn fresh_game() -> GameInstance {
    GameInstance::new(
        "g".to_string(),
        [slot(Tile::X, Some("a"), "g"), slot(Tile::O, None, "g")],
    )
    .unwrap()
}

fn game_with(cells: &[(usize, Tile)]) -> GameInstance {
    let mut g = fresh_game();
    for (idx, t) in cells {
        g.set_tile(*idx, t.clone()).unwrap();
    }
    g
}

#[test]
fn new_refuses_equal_marks() {
    let r = GameInstance::new(
        "g".to_string(),
        [slot(Tile::X, Some("a"), "g"), slot(Tile::X, None, "g")],
    );
    assert_eq!(r.unwrap_err(), GameError::DuplicateMarks);
}

#[test]
fn new_starts_empty() {
    let g = fresh_game();
    assert_eq!(g.id, "g");
    assert!(g.board.tiles.iter().all(|t| t.is_none()));
    assert_eq!(g.board.turn, Tile::X);
    assert_eq!(g.check_wins(), None);
}

#[test]
fn winner_on_every_line() {
    let lines = [
        [0usize, 1, 2],
        [3, 4, 5],
        [6, 7, 8],
        [0, 3, 6],
        [1, 4, 7],
        [2, 5, 8],
        [0, 4, 8],
        [2, 4, 6],
    ];
    for line in lines {
        for mark in [Tile::X, Tile::O] {
            let cells: Vec<(usize, Tile)> = line.iter().map(|i| (*i, mark)).collect();
            let g = game_with(&cells);
            let w = g.check_wins().unwrap();
            assert_eq!(w.tile, mark);
        }
    }
}

#[test]
fn column_behind_other_mark_is_found() {
    // column 1 of X, with O on the first cell of the middle row
    let g = game_with(&[(1, Tile::X), (3, Tile::O), (4, Tile::X), (7, Tile::X)]);
    assert_eq!(g.check_wins().unwrap().tile, Tile::X);
}

#[test]
fn full_board_without_line_has_no_winner() {
    // X O X / X O O / O X X
    let g = game_with(&[
        (0, Tile::X),
        (1, Tile::O),
        (2, Tile::X),
        (3, Tile::X),
        (4, Tile::O),
        (5, Tile::O),
        (6, Tile::O),
        (7, Tile::X),
        (8, Tile::X),
    ]);
    assert_eq!(g.check_wins(), None);
}

#[test]
fn first_slot_wins_a_tie() {
    let g = game_with(&[
        (0, Tile::O),
        (1, Tile::O),
        (2, Tile::O),
        (6, Tile::X),
        (7, Tile::X),
        (8, Tile::X),
    ]);
    assert_eq!(g.check_wins().unwrap().tile, Tile::X);
}

#[test]
fn add_player_takes_open_slot() {
    let mut g = fresh_game();
    let p = g.add_player("b".to_string()).unwrap();
    assert_eq!(p, slot(Tile::O, Some("b"), "g"));
    assert_eq!(g.players[1], p);
    assert_eq!(g.get_player("b".to_string()), Some(p));
}

#[test]
fn add_player_rejects_rejoin() {
    let mut g = fresh_game();
    assert_eq!(g.add_player("a".to_string()), Err(GameError::AlreadyJoined));
    g.add_player("b".to_string()).unwrap();
    assert_eq!(g.add_player("b".to_string()), Err(GameError::AlreadyJoined));
}

#[test]
fn add_player_refuses_third_player() {
    let mut g = fresh_game();
    g.add_player("b".to_string()).unwrap();
    assert_eq!(g.add_player("c".to_string()), Err(GameError::MatchFull));
    assert_eq!(g.players[0], slot(Tile::X, Some("a"), "g"));
    assert_eq!(g.players[1], slot(Tile::O, Some("b"), "g"));
}

#[test]
fn add_player_needs_initial_player() {
    let mut g = GameInstance::new(
        "g".to_string(),
        [slot(Tile::X, None, "g"), slot(Tile::O, None, "g")],
    )
    .unwrap();
    assert_eq!(g.add_player("b".to_string()), Err(GameError::NoInitialPlayer));
}

#[test]
fn add_player_into_first_slot() {
    let mut g = GameInstance::new(
        "g".to_string(),
        [slot(Tile::O, None, "g"), slot(Tile::X, Some("a"), "g")],
    )
    .unwrap();
    let p = g.add_player("b".to_string()).unwrap();
    assert_eq!(p, slot(Tile::O, Some("b"), "g"));
    assert_eq!(g.players[0], p);
}

#[test]
fn get_player_unknown() {
    let g = fresh_game();
    assert_eq!(g.get_player("z".to_string()), None);
    assert_eq!(g.get_player("a".to_string()).unwrap().tile, Tile::X);
}

#[test]
fn apply_move_uses_slot_mark() {
    let mut g = fresh_game();
    g.add_player("b".to_string()).unwrap();
    assert_eq!(g.apply_move("z".to_string(), 0), Err(GameError::UnknownPlayer));
    g.apply_move("b".to_string(), 5).unwrap();
    assert_eq!(g.board.tiles[5], Some(Tile::O));
    assert_eq!(g.board.turn, Tile::O);
    assert_eq!(g.apply_move("a".to_string(), 9), Err(GameError::OutOfRange));
    assert_eq!(g.apply_move("a".to_string(), 5), Err(GameError::CellOccupied));
}

#[test]
fn created_ids_are_distinct() {
    let mut reg = Registry::new();
    let mut ids: Vec<String> = Vec::new();
    for n in 0..50 {
        let (id, p) = reg.create_match(format!("conn{}", n)).unwrap();
        assert_eq!(id.len(), 21);
        assert!(id.chars().all(|c| c.is_ascii_alphanumeric() || c == '_' || c == '-'));
        assert_eq!(p.game_id, id);
        assert_eq!(p.tile, Tile::X);
        assert!(!ids.contains(&id));
        ids.push(id);
    }
    assert_eq!(reg.len(), 50);
}

#[test]
fn insert_match_refuses_taken_id() {
    let mut reg = Registry::new();
    let p = reg.insert_match("id1".to_string(), "a".to_string()).unwrap();
    assert_eq!(p, slot(Tile::X, Some("a"), "id1"));
    assert_eq!(
        reg.insert_match("id1".to_string(), "b".to_string()),
        Err(GameError::IdTaken)
    );
    assert_eq!(reg.len(), 1);
}

#[test]
fn unknown_match_is_not_found() {
    let mut reg = Registry::new();
    let id = "nope".to_string();
    assert!(reg.get_match(&id).is_err());
    assert_eq!(reg.join_match(&id, "a".to_string()), Err(GameError::NotFound));
    assert_eq!(reg.set_tile(&id, "a".to_string(), 0), Err(GameError::NotFound));
    assert!(matches!(reg.poll(&id), Err(GameError::NotFound)));
}

fn player_of(r: ServerResponse) -> Player {
    match r {
        ServerResponse::Player(p) => p,
        _ => panic!("expected a player"),
    }
}

fn error_of(r: ServerResponse) -> String {
    match r {
        ServerResponse::Error(m) => m,
        _ => panic!("expected an error"),
    }
}

#[test]
fn end_to_end_match() {
    let mut reg = Registry::new();
    let a = "127.0.0.1:5001".to_string();
    let b = "127.0.0.1:5002".to_string();

    let pa = player_of(reg.handle_request(a.clone(), ClientRequest::CreateGame));
    assert_eq!(pa.tile, Tile::X);
    let id = pa.game_id.clone();
    match reg.poll(&id).unwrap() {
        GameLoop::Board(board) => {
            assert!(board.tiles.iter().all(|t| t.is_none()));
            assert_eq!(board.turn, Tile::X);
        }
        GameLoop::Won(_) => panic!("no winner yet"),
    }

    let pb = player_of(reg.handle_request(b.clone(), ClientRequest::JoinGame(id.clone())));
    assert_eq!(pb.tile, Tile::O);

    let r = reg.handle_request(a.clone(), ClientRequest::SetTile((id.clone(), 0)));
    assert!(matches!(r, ServerResponse::Nothing));
    let g = reg.get_match(&id).unwrap();
    assert_eq!(g.board.tiles[0], Some(Tile::X));
    assert_eq!(g.board.turn, Tile::O);

    let r = reg.handle_request(b.clone(), ClientRequest::SetTile((id.clone(), 0)));
    assert_eq!(error_of(r), "tile already set!");

    for (who, cell) in [(&b, 3usize), (&a, 1), (&b, 6), (&a, 2)] {
        let r = reg.handle_request(who.clone(), ClientRequest::SetTile((id.clone(), cell)));
        assert!(matches!(r, ServerResponse::Nothing));
    }
    assert_eq!(reg.get_match(&id).unwrap().check_wins().unwrap().tile, Tile::X);
    match reg.handle_request(b.clone(), ClientRequest::GameLoop(id.clone())) {
        ServerResponse::GameLoop(GameLoop::Won(p)) => assert_eq!(p, pa),
        _ => panic!("expected a win"),
    }
}

#[test]
fn rejoin_is_refused() {
    let mut reg = Registry::new();
    let a = "a".to_string();
    let pa = player_of(reg.handle_request(a.clone(), ClientRequest::CreateGame));
    let r = reg.handle_request(a.clone(), ClientRequest::JoinGame(pa.game_id.clone()));
    assert_eq!(error_of(r), "player already joined");
    assert_eq!(
        reg.join_match(&pa.game_id, a.clone()),
        Err(GameError::AlreadyJoined)
    );
}

#[test]
fn third_connection_cannot_join() {
    let mut reg = Registry::new();
    let pa = player_of(reg.handle_request("a".to_string(), ClientRequest::CreateGame));
    let id = pa.game_id;
    player_of(reg.handle_request("b".to_string(), ClientRequest::JoinGame(id.clone())));
    let r = reg.handle_request("c".to_string(), ClientRequest::JoinGame(id.clone()));
    assert_eq!(error_of(r), "game is full");
}

#[test]
fn unknown_connection_cannot_move() {
    let mut reg = Registry::new();
    let pa = player_of(reg.handle_request("a".to_string(), ClientRequest::CreateGame));
    let r = reg.handle_request("z".to_string(), ClientRequest::SetTile((pa.game_id, 4)));
    assert_eq!(error_of(r), "player not found");
}

#[test]
fn client_step_decisions() {
    let g = game_with(&[(4, Tile::X)]);
    let shown = String::new();
    match client_step(&shown, Tile::O, &GameLoop::Board(g.board)) {
        ClientAction::Show { board, my_turn } => {
            assert_eq!(board, "\n -  -  - \n -  X  - \n -  -  - ");
            assert!(my_turn);
            assert!(matches!(
                client_step(&board, Tile::O, &GameLoop::Board(g.board)),
                ClientAction::Unchanged
            ));
        }
        _ => panic!("expected a board to show"),
    }
    match client_step(&shown, Tile::X, &GameLoop::Board(g.board)) {
        ClientAction::Show { my_turn, .. } => assert!(!my_turn),
        _ => panic!("expected a board to show"),
    }
    let winner = slot(Tile::X, Some("a"), "g");
    assert!(matches!(
        client_step(&shown, Tile::X, &GameLoop::Won(winner.clone())),
        ClientAction::Over { won: true }
    ));
    assert!(matches!(
        client_step(&shown, Tile::O, &GameLoop::Won(winner)),
        ClientAction::Over { won: false }
    ));
}

#[test]
fn game_instance_clone_is_independent() {
    let mut g = fresh_game();
    let copy = g.clone();
    g.set_tile(0, Tile::X).unwrap();
    assert_eq!(copy.board.tiles[0], None);
    assert_eq!(copy.id, "g");
    assert_eq!(copy.players[0], g.players[0]);
}

#[test]
fn first_creation_always_succeeds() {
    let mut reg = Registry::new();
    let r = reg.handle_request("a".to_string(), ClientRequest::CreateGame);
    assert!(matches!(r, ServerResponse::Player(_)));
}
