use namethat::error::AppError;
use namethat::handlers::websocket::{
    claim_display_name, disconnect, get_player_type, handle_broadcast, handle_incoming_message,
    inbound_step, join_messages, next_phase, ClaimStep, ConnectionEvent, Frame, InboundStep, Phase,
};
use namethat::models::games::{GameAction, GameBroadcast, GameMessage, GameStatus, NewGame, PlayerType};
use namethat::models::users::User;
use namethat::repositories::games::GameRepo;
use namethat::services::game::{GameActionService, GameBroadcastService};
use namethat::services::session::SessionManager;

const OWNER: u128 = 7;

fn new_store(images: usize) -> (GameRepo, u128) {
    let mut repo = GameRepo::new();
    let urls = (0..images).map(|i| format!("https://img/{}.png", i + 1)).collect();
    let id = repo
        .insert(NewGame { user_id: OWNER, name: "Name that thing".to_string(), image_urls: urls })
        .unwrap();
    (repo, id)
}

fn owner() -> Option<User> {
    Some(User { id: OWNER, email: "gm@example.com".to_string(), password: "x".to_string() })
}

fn join(repo: &mut GameRepo, sessions: &mut SessionManager, game_id: u128, session: &str, name: &str) -> ClaimStep {
    let frame = Frame::Action(GameAction::PlayerJoin { display_name: name.to_string() });
    claim_display_name(repo, sessions, &game_id, session, &frame).unwrap()
}

fn player_id(t: &PlayerType) -> u128 {
    match t {
        PlayerType::Player { id, .. } | PlayerType::Observer { id, .. } => *id,
        PlayerType::GameMaster => panic!("no player id"),
    }
}

#[test]
fn full_round_scenario() {
    let (mut repo, game_id) = new_store(2);
    let mut sessions = SessionManager::new();

    let gm = get_player_type(&mut repo, &sessions, &game_id, "s-gm", &owner()).unwrap();
    assert_eq!(gm, Some(PlayerType::GameMaster));

    assert!(get_player_type(&mut repo, &sessions, &game_id, "s-bob", &None).unwrap().is_none());
    let bob = match join(&mut repo, &mut sessions, game_id, "s-bob", "Bob") {
        ClaimStep::Joined(t) => t,
        other => panic!("unexpected {:?}", other),
    };
    assert!(matches!(bob, PlayerType::Player { ref display_name, .. } if display_name == "Bob"));
    let bob_id = player_id(&bob);

    let master = GameActionService::new(game_id, PlayerType::GameMaster);
    let player = GameActionService::new(game_id, bob.clone());
    master.handle_action(&mut repo, &GameAction::StartRound { round: 1 }).unwrap();
    let game = repo.get(&game_id).unwrap();
    assert_eq!(game.status, GameStatus::Started);
    assert_eq!(game.rounds.len(), 1);
    assert_eq!(game.rounds[0].image_url, "https://img/1.png");
    assert_eq!(game.rounds[0].round_number, 1);
    let round_id = game.rounds[0].id;

    player
        .handle_action(&mut repo, &GameAction::UserAnswer { round_id, answer: "cat".to_string() })
        .unwrap();
    let game = repo.get(&game_id).unwrap();
    assert_eq!(game.rounds[0].answers.len(), 1);
    assert_eq!(game.rounds[0].answers[0].value, "cat");
    assert_eq!(game.rounds[0].answers[0].player_id, bob_id);

    master.handle_action(&mut repo, &GameAction::CloseAnswers { round_id }).unwrap();
    assert!(repo.get(&game_id).unwrap().rounds[0].answers_closed);
    let late = player.handle_action(&mut repo, &GameAction::UserAnswer { round_id, answer: "dog".to_string() });
    assert!(matches!(late, Err(AppError::ValidationError(_))));
    assert_eq!(repo.get(&game_id).unwrap().rounds[0].answers.len(), 1);

    let winner = uuid::Uuid::from_u128(bob_id).to_string();
    master.handle_action(&mut repo, &GameAction::EndRound { round_id, winner }).unwrap();
    let game = repo.get(&game_id).unwrap();
    assert_eq!(game.rounds[0].round_winner, Some(bob_id));
    assert_eq!(game.players[0].score, 1);

    master.handle_action(&mut repo, &GameAction::EndGame).unwrap();
    let game = repo.get(&game_id).unwrap();
    assert_eq!(game.status, GameStatus::Finished);
    assert_eq!(game.winner, Some(bob_id));

    let state = repo.get_state(&game_id).unwrap();
    assert_eq!(state.game_winner.map(|p| p.id), Some(bob_id));
    assert_eq!(state.scores, vec![("Bob".to_string(), 1)]);
}

#[test]
fn reconnection_scenario() {
    let (mut repo, game_id) = new_store(2);
    let mut sessions = SessionManager::new();
    let bob = match join(&mut repo, &mut sessions, game_id, "s-bob", "Bob") {
        ClaimStep::Joined(t) => t,
        other => panic!("unexpected {:?}", other),
    };
    let hub = GameBroadcastService::new(game_id);

    let snapshot = disconnect(&mut repo, &hub, &bob).unwrap();
    assert!(!repo.get(&game_id).unwrap().players[0].active);
    match snapshot {
        Some(GameMessage::StateChange { state }) => assert!(!state.players[0].active),
        other => panic!("unexpected {:?}", other),
    }

    let again = get_player_type(&mut repo, &sessions, &game_id, "s-bob", &None).unwrap();
    assert_eq!(again, Some(bob));
    assert!(repo.get(&game_id).unwrap().players[0].active);
    assert_eq!(repo.get(&game_id).unwrap().players.len(), 1);
}

#[test]
fn second_claim_of_a_name_is_refused() {
    let (mut repo, game_id) = new_store(1);
    let mut sessions = SessionManager::new();
    assert!(matches!(join(&mut repo, &mut sessions, game_id, "a", "Alice"), ClaimStep::Joined(_)));
    assert!(matches!(join(&mut repo, &mut sessions, game_id, "b", "Alice"), ClaimStep::NameTaken));
    let alices = repo.get(&game_id).unwrap().players.iter().filter(|p| p.username == "Alice").count();
    assert_eq!(alices, 1);
    assert!(matches!(join(&mut repo, &mut sessions, game_id, "b", "alice"), ClaimStep::Joined(_)));
}

#[test]
fn reserved_name_is_refused() {
    let (mut repo, game_id) = new_store(1);
    let mut sessions = SessionManager::new();
    assert!(matches!(join(&mut repo, &mut sessions, game_id, "a", "Game Master"), ClaimStep::NameTaken));
    assert!(repo.get(&game_id).unwrap().players.is_empty());
}

#[test]
fn late_joiner_is_an_observer_and_cannot_mutate() {
    let (mut repo, game_id) = new_store(2);
    let mut sessions = SessionManager::new();
    let master = GameActionService::new(game_id, PlayerType::GameMaster);
    master.start_round(&mut repo, 1).unwrap();
    let late = match join(&mut repo, &mut sessions, game_id, "late", "Carol") {
        ClaimStep::Joined(t) => t,
        other => panic!("unexpected {:?}", other),
    };
    assert!(matches!(late, PlayerType::Observer { .. }));
    let observer = GameActionService::new(game_id, late);
    let round_id = repo.get(&game_id).unwrap().rounds[0].id;
    let actions = vec![
        GameAction::StartRound { round: 2 },
        GameAction::UserAnswer { round_id, answer: "x".to_string() },
        GameAction::CloseAnswers { round_id },
        GameAction::RevealAnswer { answer_id: 1 },
        GameAction::EndRound { round_id, winner: "nonsense".to_string() },
        GameAction::EndGame,
    ];
    for a in actions.iter() {
        let r = observer.handle_action(&mut repo, a);
        assert!(matches!(r, Err(AppError::AuthorizationError(_))), "{:?}", a);
    }
    let game = repo.get(&game_id).unwrap();
    assert_eq!(game.rounds.len(), 1);
    assert!(!game.rounds[0].answers_closed);
    assert_eq!(game.status, GameStatus::Started);
}

#[test]
fn repeated_first_round_keeps_status() {
    let (mut repo, game_id) = new_store(2);
    let master = GameActionService::new(game_id, PlayerType::GameMaster);
    master.start_round(&mut repo, 1).unwrap();
    master.end_game(&mut repo).unwrap();
    master.start_round(&mut repo, 1).unwrap();
    assert_eq!(repo.get(&game_id).unwrap().status, GameStatus::Finished);
}

#[test]
fn start_round_out_of_range() {
    let (mut repo, game_id) = new_store(2);
    let master = GameActionService::new(game_id, PlayerType::GameMaster);
    assert!(matches!(master.start_round(&mut repo, 0), Err(AppError::ValidationError(_))));
    assert!(matches!(master.start_round(&mut repo, 3), Err(AppError::ValidationError(_))));
    assert_eq!(repo.get(&game_id).unwrap().status, GameStatus::Pending);
    master.start_round(&mut repo, 2).unwrap();
    let state = repo.get_state(&game_id).unwrap();
    assert!(state.last_round);
    assert_eq!(state.image_url.as_deref(), Some("https://img/2.png"));
    assert_eq!(state.status, GameStatus::Pending);
}

#[test]
fn end_game_tie_goes_to_first_player() {
    let (mut repo, game_id) = new_store(2);
    let mut sessions = SessionManager::new();
    let a = player_id(&match join(&mut repo, &mut sessions, game_id, "a", "Ann") { ClaimStep::Joined(t) => t, _ => panic!() });
    let b = player_id(&match join(&mut repo, &mut sessions, game_id, "b", "Ben") { ClaimStep::Joined(t) => t, _ => panic!() });
    repo.increment_score(&b).unwrap();
    repo.increment_score(&a).unwrap();
    let master = GameActionService::new(game_id, PlayerType::GameMaster);
    master.end_game(&mut repo).unwrap();
    assert_eq!(repo.get(&game_id).unwrap().winner, Some(a));
}

#[test]
fn end_game_strictly_highest_wins() {
    let (mut repo, game_id) = new_store(2);
    let mut sessions = SessionManager::new();
    let _a = join(&mut repo, &mut sessions, game_id, "a", "Ann");
    let b = player_id(&match join(&mut repo, &mut sessions, game_id, "b", "Ben") { ClaimStep::Joined(t) => t, _ => panic!() });
    repo.increment_score(&b).unwrap();
    GameActionService::new(game_id, PlayerType::GameMaster).end_game(&mut repo).unwrap();
    assert_eq!(repo.get(&game_id).unwrap().winner, Some(b));
}

#[test]
fn end_game_without_players_has_no_winner() {
    let (mut repo, game_id) = new_store(1);
    GameActionService::new(game_id, PlayerType::GameMaster).end_game(&mut repo).unwrap();
    let game = repo.get(&game_id).unwrap();
    assert_eq!(game.winner, None);
    assert_eq!(game.status, GameStatus::Finished);
}

#[test]
fn actions_on_another_game_are_refused() {
    let (mut repo, game_a) = new_store(1);
    let game_b = repo
        .insert(NewGame { user_id: OWNER, name: "B".to_string(), image_urls: vec!["u".to_string()] })
        .unwrap();
    GameActionService::new(game_b, PlayerType::GameMaster).start_round(&mut repo, 1).unwrap();
    let round_b = repo.get(&game_b).unwrap().rounds[0].id;
    let master_a = GameActionService::new(game_a, PlayerType::GameMaster);
    let r = master_a.close_answers(&mut repo, &round_b);
    assert!(matches!(r, Err(AppError::ValidationError(_))));
    assert!(!repo.get(&game_b).unwrap().rounds[0].answers_closed);
    let missing = master_a.close_answers(&mut repo, &12345);
    assert!(matches!(missing, Err(AppError::NotFoundError(_))));
}

#[test]
fn likes_reveal_and_unknown_winner() {
    let (mut repo, game_id) = new_store(1);
    let mut sessions = SessionManager::new();
    let bob = match join(&mut repo, &mut sessions, game_id, "s", "Bob") { ClaimStep::Joined(t) => t, _ => panic!() };
    let master = GameActionService::new(game_id, PlayerType::GameMaster);
    master.start_round(&mut repo, 1).unwrap();
    let round_id = repo.get(&game_id).unwrap().rounds[0].id;
    GameActionService::new(game_id, bob)
        .add_user_answer(&mut repo, &round_id, &"sun".to_string())
        .unwrap();
    let answer_id = repo.get(&game_id).unwrap().rounds[0].answers[0].id;
    let guest = GameActionService::new(game_id, PlayerType::Observer { id: 1, display_name: "x".to_string() });
    guest.handle_action(&mut repo, &GameAction::LikeAnswer { answer_id }).unwrap();
    guest.handle_action(&mut repo, &GameAction::LikeAnswer { answer_id }).unwrap();
    master.handle_action(&mut repo, &GameAction::RevealAnswer { answer_id }).unwrap();
    let a = &repo.get(&game_id).unwrap().rounds[0].answers[0];
    assert_eq!(a.likes, 2);
    assert!(a.shown);
    let bad = master.handle_action(&mut repo, &GameAction::EndRound { round_id, winner: "not an id".to_string() });
    assert!(matches!(bad, Err(AppError::ValidationError(_))));
    let nobody = uuid::Uuid::from_u128(99).to_string();
    let missing = master.handle_action(&mut repo, &GameAction::EndRound { round_id, winner: nobody });
    assert!(matches!(missing, Err(AppError::NotFoundError(_))));
    assert_eq!(repo.get(&game_id).unwrap().rounds[0].round_winner, None);
}

#[test]
fn claim_protocol_frames() {
    let (mut repo, game_id) = new_store(1);
    let mut sessions = SessionManager::new();
    let w = claim_display_name(&mut repo, &mut sessions, &game_id, "s", &Frame::Unreadable).unwrap();
    assert!(matches!(w, ClaimStep::Waiting));
    let w = claim_display_name(&mut repo, &mut sessions, &game_id, "s", &Frame::Action(GameAction::EndGame)).unwrap();
    assert!(matches!(w, ClaimStep::Waiting));
    let closed = claim_display_name(&mut repo, &mut sessions, &game_id, "s", &Frame::Closed);
    assert!(matches!(closed, Err(AppError::InternalError(_))));
    let frame = Frame::Action(GameAction::PlayerJoin { display_name: "Zed".to_string() });
    let missing = claim_display_name(&mut repo, &mut sessions, &4242, "s", &frame);
    assert!(matches!(missing, Err(AppError::NotFoundError(_))));
}

#[test]
fn stale_session_mapping_is_an_error() {
    let (mut repo, game_a) = new_store(1);
    let game_b = repo.insert(NewGame { user_id: 1, name: "B".to_string(), image_urls: vec![] }).unwrap();
    let mut sessions = SessionManager::new();
    let t = match join(&mut repo, &mut sessions, game_b, "s", "Bob") { ClaimStep::Joined(t) => t, _ => panic!() };
    sessions.set_game_display_name("s", &game_a, &player_id(&t));
    let r = get_player_type(&mut repo, &sessions, &game_a, "s", &None);
    assert!(matches!(r, Err(AppError::InternalError(_))));
}

#[test]
fn inbound_and_outbound_filters() {
    let obs = PlayerType::Observer { id: 1, display_name: "o".to_string() };
    assert!(matches!(inbound_step(&obs, Frame::Action(GameAction::EndGame)), InboundStep::Skip));
    assert!(matches!(inbound_step(&obs, Frame::Closed), InboundStep::Stop));
    assert!(matches!(inbound_step(&PlayerType::GameMaster, Frame::Action(GameAction::EndGame)), InboundStep::Apply(GameAction::EndGame)));
    assert!(matches!(inbound_step(&PlayerType::GameMaster, Frame::Unreadable), InboundStep::Skip));
    assert!(matches!(inbound_step(&PlayerType::GameMaster, Frame::Other), InboundStep::Skip));
    assert!(matches!(inbound_step(&PlayerType::GameMaster, Frame::Failed), InboundStep::Stop));
    let b = GameBroadcast { game_id: 5, message: "{}".to_string() };
    assert_eq!(handle_broadcast(&b, &5), Some("{}".to_string()));
    assert_eq!(handle_broadcast(&b, &6), None);
    assert_eq!(GameBroadcastService::new(3).broadcast("m".to_string()).game_id, 3);
}

#[test]
fn connection_phases() {
    assert_eq!(next_phase(Phase::Negotiating, ConnectionEvent::Joined), Phase::Active);
    assert_eq!(next_phase(Phase::Negotiating, ConnectionEvent::Aborted), Phase::Closed);
    assert_eq!(next_phase(Phase::Active, ConnectionEvent::UnitStopped), Phase::Closing);
    assert_eq!(next_phase(Phase::Closing, ConnectionEvent::CleanedUp), Phase::Closed);
    assert_eq!(next_phase(Phase::Closed, ConnectionEvent::Joined), Phase::Closed);
}

#[test]
fn incoming_message_publishes_state() {
    let (mut repo, game_id) = new_store(1);
    let master = GameActionService::new(game_id, PlayerType::GameMaster);
    let hub = GameBroadcastService::new(game_id);
    let m = handle_incoming_message(&mut repo, &master, &hub, &GameAction::StartRound { round: 1 }).unwrap();
    match m {
        Some(GameMessage::StateChange { state }) => {
            assert_eq!(state.round_number, Some(1));
            assert_eq!(state.status, GameStatus::Started);
        }
        other => panic!("unexpected {:?}", other),
    }
    let join = GameAction::PlayerJoin { display_name: "x".to_string() };
    assert!(handle_incoming_message(&mut repo, &master, &hub, &join).unwrap().is_none());
    let (direct, notice, snapshot) = join_messages(&repo, &hub, &PlayerType::GameMaster).unwrap();
    assert!(matches!(direct, GameMessage::JoinSuccess { player_type: PlayerType::GameMaster }));
    assert!(matches!(notice, GameMessage::NewPlayer { .. }));
    assert!(matches!(snapshot, GameMessage::StateChange { .. }));
    assert!(disconnect(&mut repo, &hub, &PlayerType::GameMaster).unwrap().is_none());
}

#[test]
fn state_before_any_round() {
    let (repo, game_id) = new_store(1);
    let state = repo.get_state(&game_id).unwrap();
    assert_eq!(state.round_id, None);
    assert!(!state.last_round);
    assert!(state.answers.is_empty());
    assert!(matches!(repo.get_state(&1), Err(AppError::NotFoundError(_))));
}

#[test]
fn disconnect_of_unknown_player_is_not_found() {
    let (mut repo, game_id) = new_store(1);
    let hub = GameBroadcastService::new(game_id);
    let ghost = PlayerType::Player { id: 77, display_name: "Ghost".to_string() };
    assert!(matches!(disconnect(&mut repo, &hub, &ghost), Err(AppError::NotFoundError(_))));
    assert!(repo.get(&game_id).unwrap().players.is_empty());
}

#[test]
fn add_player_keeps_names_unique() {
    let (mut repo, game_id) = new_store(1);
    let first = repo.add_player(&game_id, "Dee", &false).unwrap();
    assert!(first.is_some());
    assert_eq!(repo.add_player(&game_id, "Dee", &true).unwrap(), None);
    let game = repo.get(&game_id).unwrap();
    assert_eq!(game.players.len(), 1);
    assert!(game.players[0].active);
    assert!(!game.players[0].is_observer);
    assert_eq!(game.players[0].score, 0);
    assert_eq!(game.players[0].game_id, game_id);
    assert!(matches!(repo.add_player(&4242, "Dee", &false), Err(AppError::NotFoundError(_))));
}
