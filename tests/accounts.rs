use namethat::error::AppError;
use namethat::extractors::{ApiAuth, AuthUser};
use namethat::handlers::games::{check_owner, game_update, new_game, plays_as_owner, NewGameRequest, UpdateGameRequest};
use namethat::handlers::profile::{updated_password, UpdateUserRequest};
use namethat::models::games::{GameFilter, GameStatus, NewGame, UpdateGame};
use namethat::models::users::{NewUser, User, UserFilter, UserUpdate};
use namethat::repositories::users::UserRepo;
use namethat::repositories::games::GameRepo;
use namethat::services::auth::AuthService;
use namethat::services::session::SessionManager;
use namethat::view::{Index, Profile};

fn user(id: u128, password: &str) -> User {
    User { id, email: "a@b.c".to_string(), password: password.to_string() }
}

#[test]
fn password_hash_round_trip() {
    let h = AuthService::hash_password("secret").unwrap();
    assert_ne!(h, "secret");
    assert!(h.starts_with("$argon2"));
    assert!(AuthService::check_password("secret", &h).unwrap());
    assert!(!AuthService::check_password("other", &h).unwrap());
    assert!(matches!(AuthService::check_password("secret", "not a hash"), Err(AppError::InternalError(_))));
}

#[test]
fn profile_password_update_rules() {
    let h = AuthService::hash_password("old").unwrap();
    let u = user(1, &h);
    let keep = UpdateUserRequest { email: "e".to_string(), old_password: None, new_password: None };
    assert_eq!(updated_password(&u, &keep).unwrap(), h);
    let no_old = UpdateUserRequest { email: "e".to_string(), old_password: None, new_password: Some("n".to_string()) };
    assert!(matches!(updated_password(&u, &no_old), Err(AppError::ValidationError(_))));
    let wrong = UpdateUserRequest { email: "e".to_string(), old_password: Some("bad".to_string()), new_password: Some("n".to_string()) };
    assert!(matches!(updated_password(&u, &wrong), Err(AppError::AuthorizationError(_))));
    let good = UpdateUserRequest { email: "e".to_string(), old_password: Some("old".to_string()), new_password: Some("n".to_string()) };
    let new_hash = updated_password(&u, &good).unwrap();
    assert!(AuthService::check_password("n", &new_hash).unwrap());
}

#[test]
fn game_requests() {
    let g = new_game(3, NewGameRequest { name: "cats".to_string(), images: vec!["a".to_string()] });
    assert_eq!(g.name, "Name that cats");
    assert_eq!(g.user_id, 3);
    let mut repo = GameRepo::new();
    let id = repo.insert(g).unwrap();
    let game = repo.get(&id).unwrap();
    assert!(check_owner(game, &user(3, "p")).is_ok());
    assert!(matches!(check_owner(game, &user(4, "p")), Err(AppError::AuthorizationError(_))));
    assert!(plays_as_owner(game, &Some(user(3, "p"))));
    assert!(!plays_as_owner(game, &None));
    let up = game_update(game, UpdateGameRequest { name: None, images: Some(vec!["b".to_string(), "c".to_string()]) });
    assert_eq!(up.name, "Name that cats");
    assert_eq!(up.image_urls, vec!["b".to_string(), "c".to_string()]);
    repo.update(id, up).unwrap();
    assert_eq!(repo.get(&id).unwrap().image_urls.len(), 2);
    assert!(matches!(repo.update(999, UpdateGame { name: "x".to_string(), image_urls: vec![] }), Err(AppError::NotFoundError(_))));
}

#[test]
fn insert_refuses_an_id_in_use() {
    let mut repo = GameRepo::new();
    repo.insert_with_id(5, NewGame { user_id: 1, name: "a".to_string(), image_urls: vec![] }).unwrap();
    let again = repo.insert_with_id(5, NewGame { user_id: 2, name: "b".to_string(), image_urls: vec![] });
    assert!(matches!(again, Err(AppError::InternalError(_))));
    assert_eq!(repo.get(&5).unwrap().user_id, 1);
    let mut users = UserRepo::new();
    let h = AuthService::hash_password("pw").unwrap();
    users.insert_with_id(9, NewUser { email: "a".to_string(), password: h.clone() }).unwrap();
    let dup = users.insert_with_id(9, NewUser { email: "b".to_string(), password: h });
    assert!(matches!(dup, Err(AppError::InternalError(_))));
}

#[test]
fn list_and_delete_games() {
    let mut repo = GameRepo::new();
    let a = repo.insert(NewGame { user_id: 1, name: "a".to_string(), image_urls: vec![] }).unwrap();
    let b = repo.insert(NewGame { user_id: 2, name: "b".to_string(), image_urls: vec![] }).unwrap();
    let c = repo.insert(NewGame { user_id: 1, name: "c".to_string(), image_urls: vec!["u".to_string()] }).unwrap();
    repo.start(&c).unwrap();
    assert_eq!(repo.list(&GameFilter { user_id: None, status: None }), vec![a, b, c]);
    assert_eq!(repo.list(&GameFilter { user_id: Some(1), status: None }), vec![a, c]);
    assert_eq!(repo.list(&GameFilter { user_id: Some(1), status: Some(GameStatus::Pending) }), vec![a]);
    repo.delete(a).unwrap();
    assert!(repo.get(&a).is_err());
    assert_eq!(repo.list(&GameFilter { user_id: None, status: None }), vec![b, c]);
}

#[test]
fn session_values_last_write_wins() {
    let mut s = SessionManager::new();
    assert_eq!(s.get_game_display_name("s1", &10), None);
    s.set_game_display_name("s1", &10, &100);
    s.set_game_display_name("s2", &10, &200);
    s.set_game_display_name("s1", &11, &300);
    assert_eq!(s.get_game_display_name("s1", &10), Some(100));
    assert_eq!(s.get_game_display_name("s2", &10), Some(200));
    assert_eq!(s.get_game_display_name("s1", &11), Some(300));
    s.set_game_display_name("s1", &10, &101);
    assert_eq!(s.get_game_display_name("s1", &10), Some(101));
    let key = format!("game-{}-username", uuid::Uuid::from_u128(10));
    assert_eq!(s.get("s1", &key), Some(101));
}

#[test]
fn auth_user_lookup() {
    assert!(matches!(AuthUser::from_lookup(None), Ok(AuthUser(None))));
    assert!(matches!(AuthUser::from_lookup(Some(Ok(user(1, "p")))), Ok(AuthUser(Some(_)))));
    assert!(matches!(AuthUser::from_lookup(Some(Err(AppError::NotFoundError("x".to_string())))), Ok(AuthUser(None))));
    assert!(matches!(AuthUser::from_lookup(Some(Err(AppError::ValidationError("x".to_string())))), Err(AppError::InternalError(_))));
}

#[test]
fn views_know_who_is_signed_in() {
    assert!(Index::new(true).authenticated());
    assert!(!Index::new(false).authenticated());
    assert!(Profile::new().authenticated());
}

#[test]
fn user_accounts() {
    let mut users = UserRepo::new();
    let plain = users.insert(NewUser { email: "a@x".to_string(), password: "plain".to_string() });
    assert!(matches!(plain, Err(AppError::ValidationError(_))));
    let h = AuthService::hash_password("pw").unwrap();
    let a = users.insert(NewUser { email: "a@x".to_string(), password: h.clone() }).unwrap();
    let b = users.insert(NewUser { email: "b@x".to_string(), password: h.clone() }).unwrap();
    assert_eq!(users.get(a.id).unwrap().email, "a@x");
    assert_eq!(users.get_by_email("b@x".to_string()).unwrap().map(|u| u.id), Some(b.id));
    assert!(users.get_by_email("c@x".to_string()).unwrap().is_none());
    assert_eq!(users.list(UserFilter { email: None }).unwrap().len(), 2);
    assert_eq!(users.list(UserFilter { email: Some("a@x".to_string()) }).unwrap()[0].id, a.id);
    let u = users.update(a.id, UserUpdate { email: "z@x".to_string(), password: h.clone() }).unwrap();
    assert_eq!(u.email, "z@x");
    users.delete(b.id).unwrap();
    assert!(matches!(users.get(b.id), Err(AppError::NotFoundError(_))));
}

#[test]
fn api_user_lookup() {
    assert!(matches!(ApiAuth::from_lookup(None), Err(AppError::AuthenticationError(_))));
    assert!(matches!(ApiAuth::from_lookup(Some(Ok(user(2, "p")))), Ok(ApiAuth(_))));
    assert!(matches!(
        ApiAuth::from_lookup(Some(Err(AppError::NotFoundError("x".to_string())))),
        Err(AppError::InternalError(_))
    ));
}
