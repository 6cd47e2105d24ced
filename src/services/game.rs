use vstd::prelude::*;

use crate::error::{AppError, AppResult};
use crate::ids::{parse_id, uuid_parsed};
use crate::lookup::{any, first, is_first, lemma_exists_first, lemma_first_is};
use crate::models::games::{store_wf, 
    game_id_is, holds_answer, holds_player, holds_round, player_id_is, round_id_is, state_fits,
    Answer, Game, GameAction, GameBroadcast, GameMessage, GameStatus, GameView, NewAnswer, NewRound,
    Player, PlayerType, RoundView,
};
use crate::repositories::games::{
    answer_of, created_answer, edit_answer, edit_game, edit_player, edit_round, game_of,
    game_of_answer, game_of_round, player_of, round_of, top_of, winner_of, GameRepo,
};

verus! {

/// Game `g` after round `n` started with a round of id `id`: the round takes
/// image `n - 1`, and the first round moves a pending game to started.
pub open spec fn started_round(g: GameView, n: i32, id: u128) -> GameView {
    GameView {
        status: if n == 1 && g.status == GameStatus::Pending {
            GameStatus::Started
        } else {
            g.status
        },
        rounds: g.rounds.push(
            RoundView {
                id,
                game_id: g.id,
                round_number: n,
                image_url: g.image_urls[n - 1],
                answers_closed: false,
                answers: Seq::empty(),
                round_winner: None,
            },
        ),
        ..g
    }
}

/// The store `old` after round `n` of game `game_id` started with a round of id `id`.
pub open spec fn after_start_round(old: Seq<GameView>, game_id: u128, n: i32, id: u128) -> Seq<
    GameView,
> {
    edit_game(old, game_id, |g: GameView| started_round(g, n, id))
}

/// The store `old` after `player` answered `value` to round `round_id`, with an
/// answer of id `id`.
pub open spec fn after_answer(
    old: Seq<GameView>,
    round_id: u128,
    player: u128,
    value: String,
    id: u128,
) -> Seq<GameView> {
    edit_round(
        old,
        round_id,
        |rd: RoundView|
            RoundView {
                answers: rd.answers.push(
                    created_answer(id, NewAnswer { player_id: player, round_id, value }),
                ),
                ..rd
            },
    )
}

/// Game `g` after it ended.
pub open spec fn ended(g: GameView) -> GameView {
    GameView { status: GameStatus::Finished, winner: winner_of(g.players), ..g }
}

/// Applies the actions of one connection to one game, with the rights of the
/// connection's role.
pub struct GameActionService {
    pub game_id: u128,
    pub user_type: PlayerType,
}

/// A sequence of games that agrees with another on the players of each game.
pub open spec fn same_players(a: Seq<GameView>, b: Seq<GameView>) -> bool {
    &&& a.len() == b.len()
    &&& forall|j: int| 0 <= j < a.len() ==> (#[trigger] a[j]).players == b[j].players
}

/// Games that agree on their players hold the same players at the same places.
proof fn lemma_same_players(a: Seq<GameView>, b: Seq<GameView>, id: u128)
    requires
        same_players(a, b),
    ensures
        any(a, holds_player(id)) == any(b, holds_player(id)),
        any(a, holds_player(id)) ==> first(a, holds_player(id)) == first(b, holds_player(id)),
        any(a, holds_player(id)) ==> player_of(a, id) == player_of(b, id),
{
    assert forall|j: int|
        #![trigger a[j]]
        #![trigger b[j]]
        0 <= j < a.len() implies holds_player(id)(a[j]) == holds_player(id)(b[j]) by {
        assert(a[j].players == b[j].players);
    }
    if any(a, holds_player(id)) {
        let i = choose|j: int| 0 <= j < a.len() && holds_player(id)(#[trigger] a[j]);
        assert(holds_player(id)(b[i]));
        let k = first(a, holds_player(id));
        lemma_exists_first(a, holds_player(id));
        assert(is_first(b, holds_player(id), k));
        lemma_first_is(b, holds_player(id), k);
    }
    if any(b, holds_player(id)) {
        let i = choose|j: int| 0 <= j < b.len() && holds_player(id)(#[trigger] b[j]);
        assert(holds_player(id)(a[i]));
    }
}


/// Whether the round of this id in the game is closed to answers.
fn answers_closed_of(game: &Game, round_id: &u128) -> (r: bool)
    requires
        any(game@.rounds, round_id_is(*round_id)),
    ensures
        r == round_of(game@, *round_id).answers_closed,
{
    let mut i: usize = 0;
    while i < game.rounds.len()
        invariant
            i <= game.rounds.len(),
            any(game@.rounds, round_id_is(*round_id)),
            forall|j: int| 0 <= j < i ==> (#[trigger] game@.rounds[j]).id != *round_id,
        decreases game.rounds.len() - i,
    {
        if game.rounds[i].id == *round_id {
            proof {
                lemma_first_is(game@.rounds, round_id_is(*round_id), i as int);
            }
            return game.rounds[i].answers_closed;
        }
        i += 1;
    }
    proof {
        let k = choose|j: int| 0 <= j < game@.rounds.len() && round_id_is(*round_id)(
            #[trigger] game@.rounds[j],
        );
        assert(game@.rounds[k].id == *round_id);
    }
    false
}

impl GameActionService {
    pub fn new(game_id: u128, user_type: PlayerType) -> (r: GameActionService)
        ensures
            r.game_id == game_id,
            r.user_type == user_type,
    {
        GameActionService { game_id, user_type }
    }

    pub open spec fn is_master(&self) -> bool {
        self.user_type is GameMaster
    }

    fn check_master(&self) -> (r: AppResult<()>)
        ensures
            r is Ok == self.is_master(),
            r matches Err(e) ==> e is AuthorizationError,
    {
        match self.user_type {
            PlayerType::GameMaster => Ok(()),
            _ => Err(AppError::AuthorizationError("User cannot modify the game".to_string())),
        }
    }

    /// What `start_round` does to the store `old`, leaving `new`.
    pub open spec fn start_round_post(
        &self,
        old: Seq<GameView>,
        new: Seq<GameView>,
        round: i32,
        r: AppResult<()>,
    ) -> bool {
        match r {
            Ok(_) => {
                &&& self.is_master()
                &&& any(old, game_id_is(self.game_id))
                &&& 1 <= round <= game_of(old, self.game_id).image_urls.len()
                &&& exists|id: u128| new == #[trigger] after_start_round(old, self.game_id, round, id)
            },
            Err(e) => {
                &&& new == old
                &&& if !self.is_master() {
                    e is AuthorizationError
                } else if !any(old, game_id_is(self.game_id)) {
                    e is NotFoundError
                } else {
                    &&& e is ValidationError
                    &&& !(1 <= round <= game_of(old, self.game_id).image_urls.len())
                }
            },
        }
    }

    /// Starts round `round` of the game with image `round - 1`; the first
    /// round moves a pending game to started.
    pub fn start_round(&self, repo: &mut GameRepo, round: i32) -> (r: AppResult<()>)
        ensures
            store_wf(old(repo)@) ==> store_wf(final(repo)@),
            self.start_round_post(old(repo)@, final(repo)@, round, r),
    {
        self.check_master()?;
        let image_url = {
            let game = repo.get(&self.game_id)?;
            if round < 1 || round as usize > game.image_urls.len() {
                return Err(AppError::ValidationError("Invalid round number".to_string()));
            }
            game.image_urls[(round - 1) as usize].clone()
        };
        let ghost old_games = repo@;
        let ghost gi = first(old_games, game_id_is(self.game_id));
        proof {
            lemma_exists_first(old_games, game_id_is(self.game_id));
        }
        if round == 1 {
            repo.start(&self.game_id)?;
        }
        let ghost mid = repo@;
        proof {
            assert(is_first(mid, game_id_is(self.game_id), gi));
            lemma_first_is(mid, game_id_is(self.game_id), gi);
        }
        let id = repo.add_round(
            NewRound { game_id: self.game_id, round_number: round, image_url },
        )?;
        proof {
            assert(repo@ =~= after_start_round(old_games, self.game_id, round, id));
        }
        Ok(())
    }

    /// What `add_user_answer` does to the store `old`, leaving `new`.
    pub open spec fn add_user_answer_post(
        &self,
        old: Seq<GameView>,
        new: Seq<GameView>,
        round_id: u128,
        answer: String,
        r: AppResult<()>,
    ) -> bool {
        match r {
            Ok(_) => {
                &&& self.user_type is Player
                &&& any(old, holds_round(round_id))
                &&& game_of_round(old, round_id).id == self.game_id
                &&& !round_of(game_of_round(old, round_id), round_id).answers_closed
                &&& any(
                    game_of_round(old, round_id).players,
                    player_id_is(self.user_type.player_id().unwrap()),
                )
                &&& exists|id: u128|
                    new == #[trigger] after_answer(
                        old,
                        round_id,
                        self.user_type.player_id().unwrap(),
                        answer,
                        id,
                    )
            },
            Err(e) => {
                &&& new == old
                &&& if !(self.user_type is Player) {
                    e is AuthorizationError
                } else if !any(old, holds_round(round_id)) {
                    e is NotFoundError
                } else {
                    &&& e is ValidationError
                    &&& {
                        ||| game_of_round(old, round_id).id != self.game_id
                        ||| round_of(game_of_round(old, round_id), round_id).answers_closed
                        ||| !any(
                            game_of_round(old, round_id).players,
                            player_id_is(self.user_type.player_id().unwrap()),
                        )
                    }
                }
            },
        }
    }

    /// Records the answer of the acting player to a round of this game that
    /// is still open to answers. The store takes an answer only from a player
    /// of the round's game (`GameRepo::add_answer` refuses any other author),
    /// so a player record that no longer belongs to the game is refused as
    /// invalid too.
    pub fn add_user_answer(&self, repo: &mut GameRepo, round_id: &u128, answer: &String) -> (r:
        AppResult<()>)
        ensures
            store_wf(old(repo)@) ==> store_wf(final(repo)@),
            self.add_user_answer_post(old(repo)@, final(repo)@, *round_id, *answer, r),
    {
        let player_id = match self.user_type {
            PlayerType::Player { id, .. } => id,
            _ => return Err(AppError::AuthorizationError("User cannot answer".to_string())),
        };
        {
            let game = repo.get_by_round_id(round_id)?;
            if game.id != self.game_id {
                return Err(AppError::ValidationError("Invalid game id for round".to_string()));
            }
            proof {
                lemma_exists_first(repo@, holds_round(*round_id));
                let k = first(repo@, holds_round(*round_id));
                assert(holds_round(*round_id)(repo@[k]));
            }
            let closed = answers_closed_of(game, round_id);
            if closed {
                return Err(
                    AppError::ValidationError("Answers are closed for this round".to_string()),
                );
            }
        }
        let ghost old_games = repo@;
        let new_answer = NewAnswer { player_id, round_id: *round_id, value: answer.clone() };
        let id = repo.add_answer(new_answer)?;
        proof {
            assert(repo@ == after_answer(old_games, *round_id, player_id, *answer, id));
        }
        Ok(())
    }

    /// What `close_answers` does to the store `old`, leaving `new`.
    pub open spec fn close_answers_post(
        &self,
        old: Seq<GameView>,
        new: Seq<GameView>,
        round_id: u128,
        r: AppResult<()>,
    ) -> bool {
        match r {
            Ok(_) => {
                &&& self.is_master()
                &&& any(old, holds_round(round_id))
                &&& game_of_round(old, round_id).id == self.game_id
                &&& new == edit_round(
                    old,
                    round_id,
                    |rd: RoundView| RoundView { answers_closed: true, ..rd },
                )
            },
            Err(e) => {
                &&& new == old
                &&& if !self.is_master() {
                    e is AuthorizationError
                } else if !any(old, holds_round(round_id)) {
                    e is NotFoundError
                } else {
                    e is ValidationError && game_of_round(old, round_id).id != self.game_id
                }
            },
        }
    }

    /// Closes a round of this game to answers.
    pub fn close_answers(&self, repo: &mut GameRepo, round_id: &u128) -> (r: AppResult<()>)
        ensures
            store_wf(old(repo)@) ==> store_wf(final(repo)@),
            self.close_answers_post(old(repo)@, final(repo)@, *round_id, r),
    {
        self.check_master()?;
        let game_id = repo.get_by_round_id(round_id)?.id;
        if game_id != self.game_id {
            return Err(AppError::ValidationError("Invalid game id for round".to_string()));
        }
        repo.close_answers(round_id)
    }

    /// What `reveal_answer` does to the store `old`, leaving `new`.
    pub open spec fn reveal_answer_post(
        &self,
        old: Seq<GameView>,
        new: Seq<GameView>,
        answer_id: u128,
        r: AppResult<()>,
    ) -> bool {
        match r {
            Ok(_) => {
                &&& self.is_master()
                &&& any(old, holds_answer(answer_id))
                &&& game_of_answer(old, answer_id).id == self.game_id
                &&& new == edit_answer(old, answer_id, |a: Answer| Answer { shown: true, ..a })
            },
            Err(e) => {
                &&& new == old
                &&& if !self.is_master() {
                    e is AuthorizationError
                } else if !any(old, holds_answer(answer_id)) {
                    e is NotFoundError
                } else {
                    e is ValidationError && game_of_answer(old, answer_id).id != self.game_id
                }
            },
        }
    }

    /// Shows an answer of this game to everyone.
    pub fn reveal_answer(&self, repo: &mut GameRepo, answer_id: &u128) -> (r: AppResult<()>)
        ensures
            store_wf(old(repo)@) ==> store_wf(final(repo)@),
            self.reveal_answer_post(old(repo)@, final(repo)@, *answer_id, r),
    {
        self.check_master()?;
        let game_id = repo.get_by_answer_id(answer_id)?.id;
        if game_id != self.game_id {
            return Err(AppError::ValidationError("Invalid answer id".to_string()));
        }
        repo.show_answer(answer_id)
    }

    /// What `like_answer` does to the store `old`, leaving `new`.
    pub open spec fn like_answer_post(
        &self,
        old: Seq<GameView>,
        new: Seq<GameView>,
        answer_id: u128,
        r: AppResult<()>,
    ) -> bool {
        match r {
            Ok(_) => {
                &&& any(old, holds_answer(answer_id))
                &&& game_of_answer(old, answer_id).id == self.game_id
                &&& answer_of(old, answer_id).likes < i32::MAX
                &&& new == edit_answer(
                    old,
                    answer_id,
                    |a: Answer| Answer { likes: (a.likes + 1) as i32, ..a },
                )
            },
            Err(e) => {
                &&& new == old
                &&& if !any(old, holds_answer(answer_id)) {
                    e is NotFoundError
                } else if game_of_answer(old, answer_id).id != self.game_id {
                    e is ValidationError
                } else {
                    e is InternalError && answer_of(old, answer_id).likes == i32::MAX
                }
            },
        }
    }

    /// Adds a like to an answer of this game; any role may like.
    pub fn like_answer(&self, repo: &mut GameRepo, answer_id: &u128) -> (r: AppResult<()>)
        ensures
            store_wf(old(repo)@) ==> store_wf(final(repo)@),
            self.like_answer_post(old(repo)@, final(repo)@, *answer_id, r),
    {
        let game_id = repo.get_by_answer_id(answer_id)?.id;
        if game_id != self.game_id {
            return Err(AppError::ValidationError("Invalid answer id".to_string()));
        }
        repo.increment_like(answer_id)
    }

    /// What `end_round` does to the store `old`, leaving `new`.
    pub open spec fn end_round_post(
        &self,
        old: Seq<GameView>,
        new: Seq<GameView>,
        round_id: u128,
        winner: u128,
        r: AppResult<()>,
    ) -> bool {
        match r {
            Ok(_) => {
                &&& self.is_master()
                &&& any(old, holds_round(round_id))
                &&& game_of_round(old, round_id).id == self.game_id
                &&& any(old, holds_player(winner))
                &&& player_of(old, winner).score < i32::MAX
                &&& new == edit_player(
                    edit_round(
                        old,
                        round_id,
                        |rd: RoundView| RoundView { round_winner: Some(winner), ..rd },
                    ),
                    winner,
                    |p: Player| Player { score: (p.score + 1) as i32, ..p },
                )
            },
            Err(e) => {
                &&& new == old
                &&& if !self.is_master() {
                    e is AuthorizationError
                } else if !any(old, holds_round(round_id)) {
                    e is NotFoundError
                } else if game_of_round(old, round_id).id != self.game_id {
                    e is ValidationError
                } else if !any(old, holds_player(winner)) {
                    e is NotFoundError
                } else {
                    e is InternalError && player_of(old, winner).score == i32::MAX
                }
            },
        }
    }

    /// Ends a round of this game with a winner, who gains a point.
    pub fn end_round(&self, repo: &mut GameRepo, round_id: &u128, winner: &u128) -> (r: AppResult<
        (),
    >)
        ensures
            store_wf(old(repo)@) ==> store_wf(final(repo)@),
            self.end_round_post(old(repo)@, final(repo)@, *round_id, *winner, r),
    {
        self.check_master()?;
        let game_id = repo.get_by_round_id(round_id)?.id;
        if game_id != self.game_id {
            return Err(AppError::ValidationError("Invalid round id".to_string()));
        }
        let score = repo.get_player(winner)?.score;
        if score == i32::MAX {
            return Err(AppError::InternalError("score out of range".to_string()));
        }
        let ghost old_games = repo@;
        repo.end_round(round_id, winner)?;
        proof {
            lemma_exists_first(old_games, holds_round(*round_id));
            assert(same_players(repo@, old_games));
            lemma_same_players(repo@, old_games, *winner);
        }
        repo.increment_score(winner)?;
        Ok(())
    }

    /// What `end_game` does to the store `old`, leaving `new`.
    pub open spec fn end_game_post(&self, old: Seq<GameView>, new: Seq<GameView>, r: AppResult<()>) -> bool {
        match r {
            Ok(_) => {
                &&& self.is_master()
                &&& any(old, game_id_is(self.game_id))
                &&& new == edit_game(old, self.game_id, |g: GameView| ended(g))
            },
            Err(e) => {
                &&& new == old
                &&& if !self.is_master() {
                    e is AuthorizationError
                } else {
                    e is NotFoundError && !any(old, game_id_is(self.game_id))
                }
            },
        }
    }

    /// Ends the game: the first player with the highest score wins, and the
    /// game is finished.
    pub fn end_game(&self, repo: &mut GameRepo) -> (r: AppResult<()>)
        ensures
            store_wf(old(repo)@) ==> store_wf(final(repo)@),
            self.end_game_post(old(repo)@, final(repo)@, r),
    {
        self.check_master()?;
        let ghost old_games = repo@;
        repo.end(&self.game_id)?;
        proof {
            assert(repo@ =~= edit_game(old_games, self.game_id, |g: GameView| ended(g)));
        }
        Ok(())
    }

    /// What `handle_action` does to the store `old`, leaving `new`.
    pub open spec fn handle_action_post(
        &self,
        old: Seq<GameView>,
        new: Seq<GameView>,
        action: GameAction,
        r: AppResult<()>,
    ) -> bool {
        match action {
            GameAction::PlayerJoin { .. } => r is Ok && new == old,
            GameAction::StartRound { round } => self.start_round_post(old, new, round, r),
            GameAction::UserAnswer { round_id, answer } => self.add_user_answer_post(
                old,
                new,
                round_id,
                answer,
                r,
            ),
            GameAction::CloseAnswers { round_id } => self.close_answers_post(old, new, round_id, r),
            GameAction::RevealAnswer { answer_id } => self.reveal_answer_post(old, new, answer_id, r),
            GameAction::LikeAnswer { answer_id } => self.like_answer_post(old, new, answer_id, r),
            GameAction::EndRound { round_id, winner } => if !self.is_master() {
                r matches Err(e) && e is AuthorizationError && new == old
            } else {
                match uuid_parsed(winner@) {
                    None => r matches Err(e) && e is ValidationError && new == old,
                    Some(w) => self.end_round_post(old, new, round_id, w, r),
                }
            },
            GameAction::EndGame => self.end_game_post(old, new, r),
        }
    }

    /// Applies one action of the connection to the store. A display-name
    /// claim changes nothing here: it belongs to the negotiation.
    pub fn handle_action(&self, repo: &mut GameRepo, message: &GameAction) -> (r: AppResult<()>)
        ensures
            store_wf(old(repo)@) ==> store_wf(final(repo)@),
            self.handle_action_post(old(repo)@, final(repo)@, *message, r),
    {
        match message {
            GameAction::PlayerJoin { .. } => Ok(()),
            GameAction::StartRound { round } => self.start_round(repo, *round),
            GameAction::UserAnswer { round_id, answer } => self.add_user_answer(
                repo,
                round_id,
                answer,
            ),
            GameAction::CloseAnswers { round_id } => self.close_answers(repo, round_id),
            GameAction::RevealAnswer { answer_id } => self.reveal_answer(repo, answer_id),
            GameAction::LikeAnswer { answer_id } => self.like_answer(repo, answer_id),
            GameAction::EndRound { round_id, winner } => {
                self.check_master()?;
                match parse_id(winner.as_str()) {
                    None => Err(AppError::ValidationError("Invalid winner id".to_string())),
                    Some(w) => self.end_round(repo, round_id, &w),
                }
            },
            GameAction::EndGame => self.end_game(repo),
        }
    }
}

/// Builds what a connection publishes to every other connection: each
/// message carries the game it belongs to, and subscribers filter on it.
pub struct GameBroadcastService {
    pub game_id: u128,
}

impl GameBroadcastService {
    pub fn new(game_id: u128) -> (r: GameBroadcastService)
        ensures
            r.game_id == game_id,
    {
        GameBroadcastService { game_id }
    }

    /// A fresh snapshot of the game's state.
    pub fn broadcast_game_state(&self, repo: &GameRepo) -> (r: AppResult<GameMessage>)
        ensures
            match r {
                Ok(m) => {
                    &&& any(repo@, game_id_is(self.game_id))
                    &&& m matches GameMessage::StateChange { state } && state_fits(
                        state,
                        game_of(repo@, self.game_id),
                    )
                },
                Err(e) => e is NotFoundError && !any(repo@, game_id_is(self.game_id)),
            },
    {
        let state = repo.get_state(&self.game_id)?;
        Ok(GameMessage::StateChange { state })
    }

    /// What follows an applied action: a fresh snapshot, but for a display
    /// name claim, which publishes nothing here.
    pub fn broadcast_action(&self, repo: &GameRepo, action: &GameAction) -> (r: AppResult<
        Option<GameMessage>,
    >)
        ensures
            action is PlayerJoin ==> r matches Ok(None),
            !(action is PlayerJoin) ==> match r {
                Ok(m) => {
                    &&& any(repo@, game_id_is(self.game_id))
                    &&& m matches Some(GameMessage::StateChange { state }) && state_fits(
                        state,
                        game_of(repo@, self.game_id),
                    )
                },
                Err(e) => e is NotFoundError && !any(repo@, game_id_is(self.game_id)),
            },
    {
        match action {
            GameAction::PlayerJoin { .. } => Ok(None),
            _ => {
                let m = self.broadcast_game_state(repo)?;
                Ok(Some(m))
            },
        }
    }

    /// The notice that a participant joined.
    pub fn broadcast_new_player(&self, player_type: &PlayerType) -> (r: GameMessage)
        ensures
            r == (GameMessage::NewPlayer { player_type: *player_type }),
    {
        GameMessage::NewPlayer { player_type: player_type.duplicate() }
    }

    /// Frames an encoded message with the game it belongs to.
    pub fn broadcast(&self, message: String) -> (r: GameBroadcast)
        ensures
            r.game_id == self.game_id,
            r.message == message,
    {
        GameBroadcast { game_id: self.game_id, message }
    }
}

/// A game's status only moves forward: whatever action a connection applies,
/// and whatever comes of it, each game stays where it was or moves on from
/// pending to started to finished. A repeated first round never sends a game
/// back.
pub proof fn lemma_status_only_advances(
    svc: GameActionService,
    old: Seq<GameView>,
    new: Seq<GameView>,
    action: GameAction,
    r: AppResult<()>,
)
    requires
        svc.handle_action_post(old, new, action, r),
    ensures
        new.len() == old.len(),
        forall|i: int| 0 <= i < old.len() ==> new[i].status.rank() >= (#[trigger] old[i]).status.rank(),
{
    if r is Ok {
        match action {
            GameAction::StartRound { round } => {
                lemma_exists_first(old, game_id_is(svc.game_id));
                let id = choose|id: u128| new == #[trigger] after_start_round(old, svc.game_id, round, id);
            },
            GameAction::UserAnswer { round_id, answer } => {
                lemma_exists_first(old, holds_round(round_id));
                let id = choose|id: u128|
                    new == #[trigger] after_answer(
                        old,
                        round_id,
                        svc.user_type.player_id().unwrap(),
                        answer,
                        id,
                    );
            },
            GameAction::CloseAnswers { round_id } => {
                lemma_exists_first(old, holds_round(round_id));
            },
            GameAction::RevealAnswer { answer_id } => {
                lemma_exists_first(old, holds_answer(answer_id));
            },
            GameAction::LikeAnswer { answer_id } => {
                lemma_exists_first(old, holds_answer(answer_id));
            },
            GameAction::EndRound { round_id, winner } => {
                let w = uuid_parsed(winner@).unwrap();
                lemma_exists_first(old, holds_round(round_id));
                let mid = edit_round(
                    old,
                    round_id,
                    |rd: RoundView| RoundView { round_winner: Some(w), ..rd },
                );
                assert(same_players(mid, old));
                lemma_same_players(mid, old, w);
                lemma_exists_first(mid, holds_player(w));
            },
            GameAction::EndGame => {
                lemma_exists_first(old, game_id_is(svc.game_id));
            },
            GameAction::PlayerJoin { .. } => {},
        }
    }
}

/// A connection classified as an observer changes nothing but likes: any
/// other mutating action is refused as unauthorized and the store stays as
/// it was.
pub proof fn lemma_observer_cannot_mutate(
    svc: GameActionService,
    old: Seq<GameView>,
    new: Seq<GameView>,
    action: GameAction,
    r: AppResult<()>,
)
    requires
        svc.user_type is Observer,
        svc.handle_action_post(old, new, action, r),
        !(action is PlayerJoin),
        !(action is LikeAnswer),
    ensures
        r matches Err(e) && e is AuthorizationError,
        new == old,
{
}

/// A non-empty list of players has a player whose score no other exceeds.
proof fn lemma_top_exists(ps: Seq<Player>)
    requires
        ps.len() > 0,
    ensures
        any(ps, top_of(ps)),
    decreases ps.len(),
{
    if ps.len() == 1 {
        assert(top_of(ps)(ps[0]));
    } else {
        let t = ps.drop_last();
        lemma_top_exists(t);
        let k = choose|j: int| 0 <= j < t.len() && top_of(t)(#[trigger] t[j]);
        let n = ps.len() - 1;
        if ps[n].score >= t[k].score {
            assert forall|j: int| 0 <= j < ps.len() implies (#[trigger] ps[j]).score <= ps[n].score by {
                if j < n {
                    assert(ps[j] == t[j]);
                }
            }
            assert(top_of(ps)(ps[n]));
        } else {
            assert forall|j: int| 0 <= j < ps.len() implies (#[trigger] ps[j]).score <= ps[k].score by {
                if j < n {
                    assert(ps[j] == t[j]);
                }
            }
            assert(top_of(ps)(ps[k]));
        }
    }
}

/// Ending a game finishes it and names as winner the player with the highest
/// score; where several share it, the first of them in player order. Only a
/// game without players has no winner.
pub proof fn lemma_end_game_winner(
    svc: GameActionService,
    old: Seq<GameView>,
    new: Seq<GameView>,
)
    requires
        svc.end_game_post(old, new, Ok(())),
    ensures
        ({
            let ps = game_of(old, svc.game_id).players;
            let g = game_of(new, svc.game_id);
            &&& g.status == GameStatus::Finished
            &&& ps.len() == 0 ==> g.winner is None
            &&& ps.len() > 0 ==> exists|k: int|
                #![trigger ps[k]]
                {
                    &&& 0 <= k < ps.len()
                    &&& g.winner == Some(ps[k].id)
                    &&& forall|j: int| 0 <= j < ps.len() ==> (#[trigger] ps[j]).score <= ps[k].score
                    &&& forall|j: int| 0 <= j < k ==> (#[trigger] ps[j]).score < ps[k].score
                }
        }),
{
    lemma_exists_first(old, game_id_is(svc.game_id));
    let gi = first(old, game_id_is(svc.game_id));
    assert(is_first(new, game_id_is(svc.game_id), gi));
    lemma_first_is(new, game_id_is(svc.game_id), gi);
    let ps = game_of(old, svc.game_id).players;
    if ps.len() > 0 {
        lemma_top_exists(ps);
        lemma_exists_first(ps, top_of(ps));
        let k = first(ps, top_of(ps));
        assert(top_of(ps)(ps[k]));
        assert forall|j: int| 0 <= j < k implies (#[trigger] ps[j]).score < ps[k].score by {
            assert(!top_of(ps)(ps[j]));
            assert forall|i: int| 0 <= i < ps.len() implies (#[trigger] ps[i]).score <= ps[k].score by {}
        }
    }
}

/// Once a round is closed to answers, no answer gets in: an answer that
/// follows the close is refused (as invalid for a player, as unauthorized
/// for any other role) and the store stays as the close left it.
pub proof fn lemma_closed_round_takes_no_answer(
    svc: GameActionService,
    answerer: GameActionService,
    old: Seq<GameView>,
    mid: Seq<GameView>,
    new: Seq<GameView>,
    round_id: u128,
    answer: String,
    r: AppResult<()>,
)
    requires
        svc.close_answers_post(old, mid, round_id, Ok(())),
        answerer.add_user_answer_post(mid, new, round_id, answer, r),
    ensures
        new == mid,
        answerer.user_type is Player ==> (r matches Err(e) && e is ValidationError),
        !(answerer.user_type is Player) ==> (r matches Err(e) && e is AuthorizationError),
{
    lemma_exists_first(old, holds_round(round_id));
    let gi = first(old, holds_round(round_id));
    let g = old[gi];
    assert(holds_round(round_id)(g));
    lemma_exists_first(g.rounds, round_id_is(round_id));
    let ri = first(g.rounds, round_id_is(round_id));
    let closed = RoundView { answers_closed: true, ..g.rounds[ri] };
    assert(mid[gi].rounds == g.rounds.update(ri, closed));
    assert(is_first(mid[gi].rounds, round_id_is(round_id), ri));
    lemma_first_is(mid[gi].rounds, round_id_is(round_id), ri);
    assert(holds_round(round_id)(mid[gi]));
    assert(is_first(mid, holds_round(round_id), gi));
    lemma_first_is(mid, holds_round(round_id), gi);
    assert(round_of(game_of_round(mid, round_id), round_id).answers_closed);
}

} // verus!
