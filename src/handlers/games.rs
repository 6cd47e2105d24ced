use vstd::prelude::*;

use crate::error::{AppError, AppResult};
use crate::models::games::{Game, NewGame, UpdateGame};
use crate::models::users::User;

verus! {

/// A request to create a game.
pub struct NewGameRequest {
    pub name: String,
    pub images: Vec<String>,
}

/// A request to change a game; each field that is set replaces the game's.
pub struct UpdateGameRequest {
    pub name: Option<String>,
    pub images: Option<Vec<String>>,
}

fn copy_strings(v: &Vec<String>) -> (r: Vec<String>)
    ensures
        r@ == v@,
{
    let mut r: Vec<String> = Vec::new();
    let mut i: usize = 0;
    while i < v.len()
        invariant
            i <= v.len(),
            r@ == v@.subrange(0, i as int),
        decreases v.len() - i,
    {
        r.push(v[i].clone());
        i += 1;
        assert(r@ =~= v@.subrange(0, i as int));
    }
    assert(r@ =~= v@);
    r
}

/// The game that a create request makes for its user; every game's name
/// starts with "Name that ".
pub fn new_game(user_id: u128, request: NewGameRequest) -> (r: NewGame)
    ensures
        r.user_id == user_id,
        r.name@ == "Name that "@ + request.name@,
        r.image_urls@ == request.images@,
{
    let mut name = "Name that ".to_owned();
    name.append(request.name.as_str());
    NewGame { user_id, name, image_urls: request.images }
}

/// Only the owner of a game may view, change or delete it.
pub fn check_owner(game: &Game, user: &User) -> (r: AppResult<()>)
    ensures
        r is Ok <==> game.user_id == user.id,
        r matches Err(e) ==> e is AuthorizationError,
{
    if game.user_id != user.id {
        return Err(AppError::AuthorizationError("You are not authorized for this game".to_string()));
    }
    Ok(())
}

/// The change that an update request makes to a game.
pub fn game_update(game: &Game, request: UpdateGameRequest) -> (r: UpdateGame)
    ensures
        r.name@ == match request.name {
            Some(n) => n@,
            None => game.name@,
        },
        r.image_urls@ == match request.images {
            Some(v) => v@,
            None => game.image_urls@,
        },
{
    let name = match request.name {
        Some(n) => n,
        None => game.name.clone(),
    };
    let image_urls = match request.images {
        Some(v) => v,
        None => copy_strings(&game.image_urls),
    };
    UpdateGame { name, image_urls }
}

/// Whether a visitor of the play page is the game's owner, who runs the game
/// from its run page instead.
pub fn plays_as_owner(game: &Game, user: &Option<User>) -> (r: bool)
    ensures
        r == (user matches Some(u) && u.id == game.user_id),
{
    match user {
        Some(u) => u.id == game.user_id,
        None => false,
    }
}

} // verus!
