use vstd::prelude::*;

use crate::error::{AppError, AppResult};
use crate::ids::new_id;
use crate::lookup::{any, first, is_first, lemma_first_is, lemma_none};
use crate::models::games::{
    answer_id_is, game_id_is, game_views, holds_answer, holds_player, holds_round,
    lemma_game_views_update, lemma_round_views_push, lemma_round_views_update, player_id_is,
    round_holds_answer, round_id_is, round_views, Answer, Game, GameStatus, GameView, NewAnswer,
    NewGame, NewRound, Player, Round, RoundView, UpdateGame, GameFilter, player_named, game_wf, store_wf, lemma_store_wf_update, count_named, lemma_count_none, lemma_count_unique, GameState, state_fits,
};

verus! {

/// The game store: every game with its rounds, players and answers, in the
/// order in which the games were created.
pub struct GameRepo {
    games: Vec<Game>,
}

impl View for GameRepo {
    type V = Seq<GameView>;

    closed spec fn view(&self) -> Seq<GameView> {
        game_views(self.games@)
    }
}

/// `gs` with the game of id `id` replaced by `f` of it.
pub open spec fn edit_game(gs: Seq<GameView>, id: u128, f: spec_fn(GameView) -> GameView) -> Seq<
    GameView,
> {
    let gi = first(gs, game_id_is(id));
    gs.update(gi, f(gs[gi]))
}

/// `gs` with the round of id `id` replaced by `f` of it.
pub open spec fn edit_round(gs: Seq<GameView>, id: u128, f: spec_fn(RoundView) -> RoundView) -> Seq<
    GameView,
> {
    let gi = first(gs, holds_round(id));
    let g = gs[gi];
    let ri = first(g.rounds, round_id_is(id));
    gs.update(gi, g.with_round(ri, f(g.rounds[ri])))
}

/// `gs` with the answer of id `id` replaced by `f` of it.
pub open spec fn edit_answer(gs: Seq<GameView>, id: u128, f: spec_fn(Answer) -> Answer) -> Seq<
    GameView,
> {
    let gi = first(gs, holds_answer(id));
    let g = gs[gi];
    let ri = first(g.rounds, round_holds_answer(id));
    let r = g.rounds[ri];
    let ai = first(r.answers, answer_id_is(id));
    gs.update(gi, g.with_round(ri, RoundView { answers: r.answers.update(ai, f(r.answers[ai])), ..r }))
}

/// `gs` with the player of id `id` replaced by `f` of it.
pub open spec fn edit_player(gs: Seq<GameView>, id: u128, f: spec_fn(Player) -> Player) -> Seq<
    GameView,
> {
    let gi = first(gs, holds_player(id));
    let g = gs[gi];
    let pi = first(g.players, player_id_is(id));
    gs.update(gi, g.with_player(pi, f(g.players[pi])))
}

/// The game of id `id` (meaningful when there is one).
pub open spec fn game_of(gs: Seq<GameView>, id: u128) -> GameView {
    gs[first(gs, game_id_is(id))]
}

/// The game that holds round `id` (meaningful when there is one).
pub open spec fn game_of_round(gs: Seq<GameView>, id: u128) -> GameView {
    gs[first(gs, holds_round(id))]
}

/// The game that holds answer `id` (meaningful when there is one).
pub open spec fn game_of_answer(gs: Seq<GameView>, id: u128) -> GameView {
    gs[first(gs, holds_answer(id))]
}

/// The round of id `id` in game `g` (meaningful when there is one).
pub open spec fn round_of(g: GameView, id: u128) -> RoundView {
    g.rounds[first(g.rounds, round_id_is(id))]
}

/// The answer of id `id` (meaningful when there is one).
pub open spec fn answer_of(gs: Seq<GameView>, id: u128) -> Answer {
    let g = gs[first(gs, holds_answer(id))];
    let r = g.rounds[first(g.rounds, round_holds_answer(id))];
    r.answers[first(r.answers, answer_id_is(id))]
}

/// The player of id `id` (meaningful when there is one).
pub open spec fn player_of(gs: Seq<GameView>, id: u128) -> Player {
    let g = gs[first(gs, holds_player(id))];
    g.players[first(g.players, player_id_is(id))]
}

/// A player whose score no player of `ps` exceeds.
pub open spec fn top_of(ps: Seq<Player>) -> spec_fn(Player) -> bool {
    |p: Player| forall|j: int| 0 <= j < ps.len() ==> (#[trigger] ps[j]).score <= p.score
}

/// The winner of a game with these players: the first of those with the
/// highest score, or none when there is no player.
pub open spec fn winner_of(ps: Seq<Player>) -> Option<u128> {
    if ps.len() == 0 {
        None
    } else {
        Some(ps[first(ps, top_of(ps))].id)
    }
}

/// The ids of the games of `gs` that `f` selects, in order.
pub open spec fn listed(gs: Seq<GameView>, f: GameFilter) -> Seq<u128>
    decreases gs.len(),
{
    if gs.len() == 0 {
        Seq::empty()
    } else {
        let rest = listed(gs.drop_last(), f);
        if selects(f, gs.last()) {
            rest.push(gs.last().id)
        } else {
            rest
        }
    }
}

/// The filter selects the game: each condition that it sets holds.
pub open spec fn selects(f: GameFilter, g: GameView) -> bool {
    &&& (f.user_id matches Some(u) ==> g.user_id == u)
    &&& (f.status matches Some(s) ==> g.status == s)
}

/// A new game as the store records it.
pub open spec fn created_game(id: u128, n: NewGame) -> GameView {
    GameView {
        id,
        user_id: n.user_id,
        name: n.name,
        image_urls: n.image_urls@,
        rounds: Seq::empty(),
        players: Seq::empty(),
        status: GameStatus::Pending,
        winner: None,
    }
}

/// A new round as the store records it.
pub open spec fn created_round(id: u128, n: NewRound) -> RoundView {
    RoundView {
        id,
        game_id: n.game_id,
        round_number: n.round_number,
        image_url: n.image_url,
        answers_closed: false,
        answers: Seq::empty(),
        round_winner: None,
    }
}

/// A new answer as the store records it.
pub open spec fn created_answer(id: u128, n: NewAnswer) -> Answer {
    Answer { id, round_id: n.round_id, player_id: n.player_id, value: n.value, likes: 0, shown: false }
}

/// `new` is `old` with a player of id `id` added at the end of the players of
/// game `game_id`, and nothing else changed.
pub open spec fn player_added(
    old: Seq<GameView>,
    new: Seq<GameView>,
    game_id: u128,
    name: Seq<char>,
    is_observer: bool,
    id: u128,
) -> bool {
    let gi = first(old, game_id_is(game_id));
    let g = old[gi];
    &&& new.len() == old.len()
    &&& forall|j: int| 0 <= j < old.len() && j != gi ==> #[trigger] new[j] == old[j]
    &&& new[gi].players.len() == g.players.len() + 1
    &&& new[gi].players.drop_last() == g.players
    &&& created_player(id, game_id, name, is_observer, new[gi].players.last())
    &&& new[gi] == GameView { players: new[gi].players, ..g }
}

/// A new player as the store records it: active, with no points.
pub open spec fn created_player(id: u128, game_id: u128, name: Seq<char>, is_observer: bool, p: Player) -> bool {
    &&& p.id == id
    &&& p.game_id == game_id
    &&& p.username@ == name
    &&& p.active
    &&& p.is_observer == is_observer
    &&& p.score == 0
}

/// The id of the first player with the highest score, if there is a player.
pub fn top_scorer(players: &Vec<Player>) -> (r: Option<u128>)
    ensures
        r == winner_of(players@),
{
    if players.len() == 0 {
        return None;
    }
    let mut best: usize = 0;
    let mut i: usize = 1;
    while i < players.len()
        invariant
            0 < i <= players.len(),
            best < i,
            forall|j: int| 0 <= j < i ==> (#[trigger] players@[j]).score <= players@[best as int].score,
            forall|j: int| 0 <= j < best ==> (#[trigger] players@[j]).score < players@[best as int].score,
        decreases players.len() - i,
    {
        if players[i].score > players[best].score {
            best = i;
        }
        i += 1;
    }
    proof {
        let ps = players@;
        assert(top_of(ps)(ps[best as int]));
        assert forall|j: int| 0 <= j < best implies !top_of(ps)(#[trigger] ps[j]) by {
            assert(ps[j].score < ps[best as int].score);
        }
        lemma_first_is(ps, top_of(ps), best as int);
    }
    Some(players[best].id)
}

fn find_round_in(rounds: &Vec<Round>, id: u128) -> (r: Option<usize>)
    ensures
        match r {
            Some(i) => is_first(round_views(rounds@), round_id_is(id), i as int),
            None => !any(round_views(rounds@), round_id_is(id)),
        },
{
    let mut i: usize = 0;
    while i < rounds.len()
        invariant
            i <= rounds.len(),
            forall|j: int| 0 <= j < i ==> !round_id_is(id)(#[trigger] round_views(rounds@)[j]),
        decreases rounds.len() - i,
    {
        if rounds[i].id == id {
            return Some(i);
        }
        i += 1;
    }
    proof {
        lemma_none(round_views(rounds@), round_id_is(id));
    }
    None
}

fn find_answer_in(answers: &Vec<Answer>, id: u128) -> (r: Option<usize>)
    ensures
        match r {
            Some(i) => is_first(answers@, answer_id_is(id), i as int),
            None => !any(answers@, answer_id_is(id)),
        },
{
    let mut i: usize = 0;
    while i < answers.len()
        invariant
            i <= answers.len(),
            forall|j: int| 0 <= j < i ==> !answer_id_is(id)(#[trigger] answers@[j]),
        decreases answers.len() - i,
    {
        if answers[i].id == id {
            return Some(i);
        }
        i += 1;
    }
    proof {
        lemma_none(answers@, answer_id_is(id));
    }
    None
}

fn find_player_in(players: &Vec<Player>, id: u128) -> (r: Option<usize>)
    ensures
        match r {
            Some(i) => is_first(players@, player_id_is(id), i as int),
            None => !any(players@, player_id_is(id)),
        },
{
    let mut i: usize = 0;
    while i < players.len()
        invariant
            i <= players.len(),
            forall|j: int| 0 <= j < i ==> !player_id_is(id)(#[trigger] players@[j]),
        decreases players.len() - i,
    {
        if players[i].id == id {
            return Some(i);
        }
        i += 1;
    }
    proof {
        lemma_none(players@, player_id_is(id));
    }
    None
}

/// The first round holding answer `id`, and the answer's place in it.
fn find_answer_round_in(rounds: &Vec<Round>, id: u128) -> (r: Option<(usize, usize)>)
    ensures
        match r {
            Some((ri, ai)) => {
                &&& is_first(round_views(rounds@), round_holds_answer(id), ri as int)
                &&& is_first(round_views(rounds@)[ri as int].answers, answer_id_is(id), ai as int)
            },
            None => !any(round_views(rounds@), round_holds_answer(id)),
        },
{
    let mut i: usize = 0;
    while i < rounds.len()
        invariant
            i <= rounds.len(),
            forall|j: int|
                0 <= j < i ==> !round_holds_answer(id)(#[trigger] round_views(rounds@)[j]),
        decreases rounds.len() - i,
    {
        match find_answer_in(&rounds[i].answers, id) {
            Some(ai) => {
                proof {
                    lemma_first_is(rounds@[i as int].answers@, answer_id_is(id), ai as int);
                }
                return Some((i, ai));
            },
            None => {},
        }
        i += 1;
    }
    proof {
        lemma_none(round_views(rounds@), round_holds_answer(id));
    }
    None
}

impl GameRepo {
    /// Every game of the store is well formed.
    pub open spec fn wf(&self) -> bool {
        store_wf(self@)
    }

    pub fn new() -> (r: GameRepo)
        ensures
            r@ == Seq::<GameView>::empty(),
            store_wf(r@),
    {
        let r = GameRepo { games: Vec::new() };
        assert(r@ =~= Seq::<GameView>::empty());
        r
    }

    fn find_game(&self, id: u128) -> (r: Option<usize>)
        ensures
            match r {
                Some(i) => is_first(self@, game_id_is(id), i as int),
                None => !any(self@, game_id_is(id)),
            },
    {
        let mut i: usize = 0;
        while i < self.games.len()
            invariant
                i <= self.games.len(),
                forall|j: int| 0 <= j < i ==> !game_id_is(id)(#[trigger] self@[j]),
            decreases self.games.len() - i,
        {
            if self.games[i].id == id {
                return Some(i);
            }
            i += 1;
        }
        proof {
            lemma_none(self@, game_id_is(id));
        }
        None
    }

    /// The first game holding round `id`, and the round's place in it.
    fn find_round(&self, id: u128) -> (r: Option<(usize, usize)>)
        ensures
            match r {
                Some((gi, ri)) => {
                    &&& is_first(self@, holds_round(id), gi as int)
                    &&& is_first(self@[gi as int].rounds, round_id_is(id), ri as int)
                },
                None => !any(self@, holds_round(id)),
            },
    {
        let mut i: usize = 0;
        while i < self.games.len()
            invariant
                i <= self.games.len(),
                forall|j: int| 0 <= j < i ==> !holds_round(id)(#[trigger] self@[j]),
            decreases self.games.len() - i,
        {
            match find_round_in(&self.games[i].rounds, id) {
                Some(ri) => {
                    proof {
                        lemma_first_is(self@[i as int].rounds, round_id_is(id), ri as int);
                    }
                    return Some((i, ri));
                },
                None => {},
            }
            i += 1;
        }
        proof {
            lemma_none(self@, holds_round(id));
        }
        None
    }

    /// The first game holding answer `id`, and the answer's place in it.
    fn find_answer(&self, id: u128) -> (r: Option<(usize, usize, usize)>)
        ensures
            match r {
                Some((gi, ri, ai)) => {
                    &&& is_first(self@, holds_answer(id), gi as int)
                    &&& is_first(self@[gi as int].rounds, round_holds_answer(id), ri as int)
                    &&& is_first(
                        self@[gi as int].rounds[ri as int].answers,
                        answer_id_is(id),
                        ai as int,
                    )
                },
                None => !any(self@, holds_answer(id)),
            },
    {
        let mut i: usize = 0;
        while i < self.games.len()
            invariant
                i <= self.games.len(),
                forall|j: int| 0 <= j < i ==> !holds_answer(id)(#[trigger] self@[j]),
            decreases self.games.len() - i,
        {
            match find_answer_round_in(&self.games[i].rounds, id) {
                Some((ri, ai)) => {
                    proof {
                        lemma_first_is(self@[i as int].rounds, round_holds_answer(id), ri as int);
                    }
                    return Some((i, ri, ai));
                },
                None => {},
            }
            i += 1;
        }
        proof {
            lemma_none(self@, holds_answer(id));
        }
        None
    }

    /// The first game holding player `id`, and the player's place in it.
    fn find_player(&self, id: u128) -> (r: Option<(usize, usize)>)
        ensures
            match r {
                Some((gi, pi)) => {
                    &&& is_first(self@, holds_player(id), gi as int)
                    &&& is_first(self@[gi as int].players, player_id_is(id), pi as int)
                },
                None => !any(self@, holds_player(id)),
            },
    {
        let mut i: usize = 0;
        while i < self.games.len()
            invariant
                i <= self.games.len(),
                forall|j: int| 0 <= j < i ==> !holds_player(id)(#[trigger] self@[j]),
            decreases self.games.len() - i,
        {
            match find_player_in(&self.games[i].players, id) {
                Some(pi) => {
                    proof {
                        lemma_first_is(self@[i as int].players, player_id_is(id), pi as int);
                    }
                    return Some((i, pi));
                },
                None => {},
            }
            i += 1;
        }
        proof {
            lemma_none(self@, holds_player(id));
        }
        None
    }

    /// The game of this id.
    pub fn get(&self, id: &u128) -> (r: AppResult<&Game>)
        ensures
            match r {
                Ok(g) => any(self@, game_id_is(*id)) && g@ == game_of(self@, *id),
                Err(e) => !any(self@, game_id_is(*id)) && e is NotFoundError,
            },
    {
        match self.find_game(*id) {
            Some(i) => {
                proof {
                    lemma_first_is(self@, game_id_is(*id), i as int);
                }
                Ok(&self.games[i])
            },
            None => Err(AppError::NotFoundError("not found".to_string())),
        }
    }

    /// The game that holds the round of this id.
    pub fn get_by_round_id(&self, round_id: &u128) -> (r: AppResult<&Game>)
        ensures
            match r {
                Ok(g) => any(self@, holds_round(*round_id)) && g@ == game_of_round(self@, *round_id),
                Err(e) => !any(self@, holds_round(*round_id)) && e is NotFoundError,
            },
    {
        match self.find_round(*round_id) {
            Some((i, _)) => {
                proof {
                    lemma_first_is(self@, holds_round(*round_id), i as int);
                }
                Ok(&self.games[i])
            },
            None => Err(AppError::NotFoundError("not found".to_string())),
        }
    }

    /// The game that holds the answer of this id.
    pub fn get_by_answer_id(&self, answer_id: &u128) -> (r: AppResult<&Game>)
        ensures
            match r {
                Ok(g) => any(self@, holds_answer(*answer_id)) && g@ == game_of_answer(
                    self@,
                    *answer_id,
                ),
                Err(e) => !any(self@, holds_answer(*answer_id)) && e is NotFoundError,
            },
    {
        match self.find_answer(*answer_id) {
            Some((i, _, _)) => {
                proof {
                    lemma_first_is(self@, holds_answer(*answer_id), i as int);
                }
                Ok(&self.games[i])
            },
            None => Err(AppError::NotFoundError("not found".to_string())),
        }
    }

    /// The player of this id.
    pub fn get_player(&self, id: &u128) -> (r: AppResult<&Player>)
        ensures
            match r {
                Ok(p) => any(self@, holds_player(*id)) && *p == player_of(self@, *id),
                Err(e) => !any(self@, holds_player(*id)) && e is NotFoundError,
            },
    {
        match self.find_player(*id) {
            Some((i, j)) => {
                proof {
                    lemma_first_is(self@, holds_player(*id), i as int);
                    lemma_first_is(self@[i as int].players, player_id_is(*id), j as int);
                }
                Ok(&self.games[i].players[j])
            },
            None => Err(AppError::NotFoundError("not found".to_string())),
        }
    }

    /// Moves the game of this id from `Pending` to `Started`; a game that has
    /// started already keeps its status.
    pub fn start(&mut self, game_id: &u128) -> (r: AppResult<()>)
        ensures
            store_wf(old(self)@) ==> store_wf(final(self)@),
            match r {
                Ok(_) => {
                    &&& any(old(self)@, game_id_is(*game_id))
                    &&& final(self)@ == edit_game(
                        old(self)@,
                        *game_id,
                        |g: GameView|
                            if g.status == GameStatus::Pending {
                                g.with_status(GameStatus::Started)
                            } else {
                                g
                            },
                    )
                },
                Err(e) => {
                    &&& !any(old(self)@, game_id_is(*game_id))
                    &&& e is NotFoundError
                    &&& final(self)@ == old(self)@
                },
            },
    {
        match self.find_game(*game_id) {
            Some(i) => {
                proof {
                    lemma_first_is(self@, game_id_is(*game_id), i as int);
                }
                let ghost old_games = self.games@;
                let mut g = self.games.remove(i);
                if g.status == GameStatus::Pending {
                    g.status = GameStatus::Started;
                }
                self.games.insert(i, g);
                proof {
                    assert(self.games@ =~= old_games.update(i as int, g));
                    lemma_game_views_update(old_games, i as int, g);
                    if store_wf(game_views(old_games)) {
                        let og = game_views(old_games)[i as int];
                        assert(game_wf(og));
                        assert(g@.players == og.players);
                        assert(g@.rounds == og.rounds);
                    }
                    lemma_store_wf_update(game_views(old_games), i as int, g@);
                }
                Ok(())
            },
            None => Err(AppError::NotFoundError("not found".to_string())),
        }
    }

    /// Sets answers closed on the round of this id.
    pub fn close_answers(&mut self, round_id: &u128) -> (r: AppResult<()>)
        ensures
            store_wf(old(self)@) ==> store_wf(final(self)@),
            match r {
                Ok(_) => {
                    &&& any(old(self)@, holds_round(*round_id))
                    &&& final(self)@ == edit_round(
                        old(self)@,
                        *round_id,
                        |rd: RoundView| RoundView { answers_closed: true, ..rd },
                    )
                },
                Err(e) => {
                    &&& !any(old(self)@, holds_round(*round_id))
                    &&& e is NotFoundError
                    &&& final(self)@ == old(self)@
                },
            },
    {
        match self.find_round(*round_id) {
            Some((gi, ri)) => {
                proof {
                    lemma_first_is(self@, holds_round(*round_id), gi as int);
                    lemma_first_is(self@[gi as int].rounds, round_id_is(*round_id), ri as int);
                }
                let ghost old_games = self.games@;
                let mut g = self.games.remove(gi);
                let ghost old_rounds = g.rounds@;
                let mut rd = g.rounds.remove(ri);
                rd.answers_closed = true;
                g.rounds.insert(ri, rd);
                self.games.insert(gi, g);
                proof {
                    assert(g.rounds@ =~= old_rounds.update(ri as int, rd));
                    lemma_round_views_update(old_rounds, ri as int, rd);
                    assert(self.games@ =~= old_games.update(gi as int, g));
                    lemma_game_views_update(old_games, gi as int, g);
                    if store_wf(game_views(old_games)) {
                        let og = game_views(old_games)[gi as int];
                        assert(game_wf(og));
                        assert(g@.players == og.players);
                        assert forall|k: int| 0 <= k < g@.rounds.len() implies (#[trigger] g@.rounds[k]).game_id
                            == g@.id by {
                            if k != ri {
                                assert(g@.rounds[k] == og.rounds[k]);
                            }
                        }
                    }
                    lemma_store_wf_update(game_views(old_games), gi as int, g@);
                }
                Ok(())
            },
            None => Err(AppError::NotFoundError("not found".to_string())),
        }
    }

    /// Records a new game under a random id, pending, with no rounds and no
    /// players, and returns the id.
    pub fn insert(&mut self, new_game: NewGame) -> (r: AppResult<u128>)
        ensures
            store_wf(old(self)@) ==> store_wf(final(self)@),
            match r {
                Ok(id) => {
                    &&& !any(old(self)@, game_id_is(id))
                    &&& final(self)@ == old(self)@.push(created_game(id, new_game))
                },
                Err(e) => e is InternalError && final(self)@ == old(self)@,
            },
    {
        let id = new_id();
        self.insert_with_id(id, new_game)?;
        Ok(id)
    }

    /// Records a new game under the given id, which no game may have yet.
    pub fn insert_with_id(&mut self, id: u128, new_game: NewGame) -> (r: AppResult<()>)
        ensures
            store_wf(old(self)@) ==> store_wf(final(self)@),
            match r {
                Ok(_) => {
                    &&& !any(old(self)@, game_id_is(id))
                    &&& final(self)@ == old(self)@.push(created_game(id, new_game))
                },
                Err(e) => {
                    &&& any(old(self)@, game_id_is(id))
                    &&& e is InternalError
                    &&& final(self)@ == old(self)@
                },
            },
    {
        match self.find_game(id) {
            Some(i) => {
                proof {
                    lemma_first_is(self@, game_id_is(id), i as int);
                }
                Err(AppError::InternalError("id already in use".to_string()))
            },
            None => {
                let g = Game {
                    id,
                    user_id: new_game.user_id,
                    name: new_game.name,
                    image_urls: new_game.image_urls,
                    rounds: Vec::new(),
                    players: Vec::new(),
                    status: GameStatus::Pending,
                    winner: None,
                };
                let ghost old_games = self.games@;
                self.games.push(g);
                proof {
                    assert(g@.rounds =~= Seq::<RoundView>::empty());
                    assert(g@.players =~= Seq::<Player>::empty());
                    assert(self@ =~= game_views(old_games).push(g@));
                    assert(game_wf(g@));
                    if store_wf(game_views(old_games)) {
                        assert forall|k: int| 0 <= k < self@.len() implies game_wf(#[trigger] self@[k]) by {
                            if k < old_games.len() {
                                assert(self@[k] == game_views(old_games)[k]);
                            }
                        }
                    }
                }
                Ok(())
            },
        }
    }

    /// The ids of the games that the filter selects, in order of creation.
    pub fn list(&self, filter: &GameFilter) -> (r: Vec<u128>)
        ensures
            r@ == listed(self@, *filter),
    {
        let mut r: Vec<u128> = Vec::new();
        let mut i: usize = 0;
        while i < self.games.len()
            invariant
                i <= self.games.len(),
                r@ == listed(self@.subrange(0, i as int), *filter),
            decreases self.games.len() - i,
        {
            proof {
                assert(self@.subrange(0, i + 1).drop_last() =~= self@.subrange(0, i as int));
            }
            let g = &self.games[i];
            let chosen = match filter.user_id {
                Some(u) => g.user_id == u,
                None => true,
            } && match filter.status {
                Some(s) => g.status == s,
                None => true,
            };
            if chosen {
                r.push(g.id);
            }
            i += 1;
        }
        proof {
            assert(self@.subrange(0, self@.len() as int) =~= self@);
        }
        r
    }

    /// Renames the game of this id and replaces its images.
    pub fn update(&mut self, id: u128, update_game: UpdateGame) -> (r: AppResult<()>)
        ensures
            store_wf(old(self)@) ==> store_wf(final(self)@),
            match r {
                Ok(_) => {
                    &&& any(old(self)@, game_id_is(id))
                    &&& final(self)@ == edit_game(
                        old(self)@,
                        id,
                        |g: GameView|
                            GameView {
                                name: update_game.name,
                                image_urls: update_game.image_urls@,
                                ..g
                            },
                    )
                },
                Err(e) => {
                    &&& !any(old(self)@, game_id_is(id))
                    &&& e is NotFoundError
                    &&& final(self)@ == old(self)@
                },
            },
    {
        match self.find_game(id) {
            Some(i) => {
                proof {
                    lemma_first_is(self@, game_id_is(id), i as int);
                }
                let ghost old_games = self.games@;
                let mut g = self.games.remove(i);
                g.name = update_game.name;
                g.image_urls = update_game.image_urls;
                self.games.insert(i, g);
                proof {
                    assert(self.games@ =~= old_games.update(i as int, g));
                    lemma_game_views_update(old_games, i as int, g);
                    if store_wf(game_views(old_games)) {
                        let og = game_views(old_games)[i as int];
                        assert(game_wf(og));
                        assert(g@.players == og.players);
                        assert(g@.rounds == og.rounds);
                    }
                    lemma_store_wf_update(game_views(old_games), i as int, g@);
                }
                Ok(())
            },
            None => Err(AppError::NotFoundError("not found".to_string())),
        }
    }

    /// Removes the game of this id, if there is one.
    pub fn delete(&mut self, id: u128) -> (r: AppResult<()>)
        ensures
            store_wf(old(self)@) ==> store_wf(final(self)@),
            r is Ok,
            any(old(self)@, game_id_is(id)) ==> final(self)@ == old(self)@.remove(
                first(old(self)@, game_id_is(id)),
            ),
            !any(old(self)@, game_id_is(id)) ==> final(self)@ == old(self)@,
    {
        match self.find_game(id) {
            Some(i) => {
                proof {
                    lemma_first_is(self@, game_id_is(id), i as int);
                }
                let ghost old_games = self.games@;
                self.games.remove(i);
                proof {
                    assert(self@ =~= game_views(old_games).remove(i as int));
                    if store_wf(game_views(old_games)) {
                        assert forall|k: int| 0 <= k < self@.len() implies game_wf(#[trigger] self@[k]) by {
                            if k < i {
                                assert(self@[k] == game_views(old_games)[k]);
                            } else {
                                assert(self@[k] == game_views(old_games)[k + 1]);
                            }
                        }
                    }
                }
                Ok(())
            },
            None => Ok(()),
        }
    }

    /// Adds an active player with no points to the game of this id, unless a
    /// player of the game has that name already. Returns the new player's id,
    /// or none when the name was taken.
    pub fn add_player(&mut self, game_id: &u128, username: &str, is_observer: &bool) -> (r: AppResult<
        Option<u128>,
    >)
        ensures
            store_wf(old(self)@) ==> store_wf(final(self)@),
            r is Ok && store_wf(old(self)@) ==> count_named(
                game_of(final(self)@, *game_id).players,
                username@,
            ) == 1,
            match r {
                Ok(Some(id)) => {
                    &&& any(old(self)@, game_id_is(*game_id))
                    &&& !any(game_of(old(self)@, *game_id).players, player_named(username@))
                    &&& player_added(old(self)@, final(self)@, *game_id, username@, *is_observer, id)
                },
                Ok(None) => {
                    &&& any(old(self)@, game_id_is(*game_id))
                    &&& any(game_of(old(self)@, *game_id).players, player_named(username@))
                    &&& final(self)@ == old(self)@
                },
                Err(e) => {
                    &&& !any(old(self)@, game_id_is(*game_id))
                    &&& e is NotFoundError
                    &&& final(self)@ == old(self)@
                },
            },
    {
        match self.find_game(*game_id) {
            Some(gi) => {
                proof {
                    lemma_first_is(self@, game_id_is(*game_id), gi as int);
                }
                let name = username.to_owned();
                let mut k: usize = 0;
                while k < self.games[gi].players.len()
                    invariant
                        gi < self.games.len(),
                        name@ == username@,
                        first(self@, game_id_is(*game_id)) == gi,
                        any(self@, game_id_is(*game_id)),
                        k <= self.games@[gi as int].players.len(),
                        forall|j: int|
                            0 <= j < k ==> !player_named(username@)(
                                #[trigger] self.games@[gi as int].players@[j],
                            ),
                    decreases self.games@[gi as int].players.len() - k,
                {
                    if self.games[gi].players[k].username == name {
                        proof {
                            assert(self@[gi as int].players == self.games@[gi as int].players@);
                            lemma_first_is(self@[gi as int].players, player_named(username@), k as int);
                            if store_wf(self@) {
                                assert(game_wf(self@[gi as int]));
                                lemma_count_unique(self@[gi as int].players, username@);
                            }
                        }
                        return Ok(None);
                    }
                    k += 1;
                }
                proof {
                    assert(self@[gi as int].players == self.games@[gi as int].players@);
                    lemma_none(self@[gi as int].players, player_named(username@));
                }
                let id = new_id();
                let p = Player {
                    id,
                    game_id: *game_id,
                    username: name,
                    active: true,
                    is_observer: *is_observer,
                    score: 0,
                };
                let ghost old_games = self.games@;
                let mut g = self.games.remove(gi);
                g.players.push(p);
                self.games.insert(gi, g);
                proof {
                    assert(self.games@ =~= old_games.update(gi as int, g));
                    lemma_game_views_update(old_games, gi as int, g);
                    lemma_store_wf_update(game_views(old_games), gi as int, g@);
                    assert(g.players@.drop_last() =~= old_games[gi as int].players@);
                    assert(is_first(self@, game_id_is(*game_id), gi as int));
                    lemma_first_is(self@, game_id_is(*game_id), gi as int);
                    lemma_count_none(game_views(old_games)[gi as int].players, username@);
                    assert(self@[gi as int].players.drop_last() == game_views(old_games)[gi as int].players);
                }
                Ok(Some(id))
            },
            None => Err(AppError::NotFoundError("not found".to_string())),
        }
    }

    /// Sets the `active` flag of the player of this id.
    fn set_player_active(&mut self, id: &u128, active: bool) -> (r: AppResult<()>)
        ensures
            store_wf(old(self)@) ==> store_wf(final(self)@),
            match r {
                Ok(_) => {
                    &&& any(old(self)@, holds_player(*id))
                    &&& final(self)@ == edit_player(
                        old(self)@,
                        *id,
                        |p: Player| Player { active, ..p },
                    )
                },
                Err(e) => {
                    &&& !any(old(self)@, holds_player(*id))
                    &&& e is NotFoundError
                    &&& final(self)@ == old(self)@
                },
            },
    {
        match self.find_player(*id) {
            Some((gi, pi)) => {
                proof {
                    lemma_first_is(self@, holds_player(*id), gi as int);
                    lemma_first_is(self@[gi as int].players, player_id_is(*id), pi as int);
                }
                let ghost old_games = self.games@;
                let mut g = self.games.remove(gi);
                let mut p = g.players.remove(pi);
                p.active = active;
                g.players.insert(pi, p);
                self.games.insert(gi, g);
                proof {
                    assert(g.players@ =~= old_games[gi as int].players@.update(pi as int, p));
                    assert(self.games@ =~= old_games.update(gi as int, g));
                    lemma_game_views_update(old_games, gi as int, g);
                    lemma_store_wf_update(game_views(old_games), gi as int, g@);
                }
                Ok(())
            },
            None => Err(AppError::NotFoundError("not found".to_string())),
        }
    }

    /// Marks the player of this id as connected.
    pub fn mark_player_active(&mut self, id: &u128) -> (r: AppResult<()>)
        ensures
            store_wf(old(self)@) ==> store_wf(final(self)@),
            match r {
                Ok(_) => {
                    &&& any(old(self)@, holds_player(*id))
                    &&& final(self)@ == edit_player(
                        old(self)@,
                        *id,
                        |p: Player| Player { active: true, ..p },
                    )
                },
                Err(e) => {
                    &&& !any(old(self)@, holds_player(*id))
                    &&& e is NotFoundError
                    &&& final(self)@ == old(self)@
                },
            },
    {
        self.set_player_active(id, true)
    }

    /// Marks the player of this id as gone.
    pub fn mark_player_inactive(&mut self, id: &u128) -> (r: AppResult<()>)
        ensures
            store_wf(old(self)@) ==> store_wf(final(self)@),
            match r {
                Ok(_) => {
                    &&& any(old(self)@, holds_player(*id))
                    &&& final(self)@ == edit_player(
                        old(self)@,
                        *id,
                        |p: Player| Player { active: false, ..p },
                    )
                },
                Err(e) => {
                    &&& !any(old(self)@, holds_player(*id))
                    &&& e is NotFoundError
                    &&& final(self)@ == old(self)@
                },
            },
    {
        self.set_player_active(id, false)
    }

    /// Adds one point to the player of this id.
    pub fn increment_score(&mut self, player_id: &u128) -> (r: AppResult<()>)
        ensures
            store_wf(old(self)@) ==> store_wf(final(self)@),
            match r {
                Ok(_) => {
                    &&& any(old(self)@, holds_player(*player_id))
                    &&& player_of(old(self)@, *player_id).score < i32::MAX
                    &&& final(self)@ == edit_player(
                        old(self)@,
                        *player_id,
                        |p: Player| Player { score: (p.score + 1) as i32, ..p },
                    )
                },
                Err(e) => {
                    &&& final(self)@ == old(self)@
                    &&& !any(old(self)@, holds_player(*player_id)) ==> e is NotFoundError
                    &&& any(old(self)@, holds_player(*player_id)) ==> e is InternalError
                        && player_of(old(self)@, *player_id).score == i32::MAX
                },
            },
    {
        match self.find_player(*player_id) {
            Some((gi, pi)) => {
                proof {
                    lemma_first_is(self@, holds_player(*player_id), gi as int);
                    lemma_first_is(self@[gi as int].players, player_id_is(*player_id), pi as int);
                }
                if self.games[gi].players[pi].score == i32::MAX {
                    return Err(AppError::InternalError("score out of range".to_string()));
                }
                let ghost old_games = self.games@;
                let mut g = self.games.remove(gi);
                let mut p = g.players.remove(pi);
                p.score = p.score + 1;
                g.players.insert(pi, p);
                self.games.insert(gi, g);
                proof {
                    assert(g.players@ =~= old_games[gi as int].players@.update(pi as int, p));
                    assert(self.games@ =~= old_games.update(gi as int, g));
                    lemma_game_views_update(old_games, gi as int, g);
                    lemma_store_wf_update(game_views(old_games), gi as int, g@);
                }
                Ok(())
            },
            None => Err(AppError::NotFoundError("not found".to_string())),
        }
    }

    /// Adds a round to the game that the new round names, and returns its id.
    pub fn add_round(&mut self, round: NewRound) -> (r: AppResult<u128>)
        ensures
            store_wf(old(self)@) ==> store_wf(final(self)@),
            match r {
                Ok(id) => {
                    &&& any(old(self)@, game_id_is(round.game_id))
                    &&& final(self)@ == edit_game(
                        old(self)@,
                        round.game_id,
                        |g: GameView|
                            GameView { rounds: g.rounds.push(created_round(id, round)), ..g },
                    )
                },
                Err(e) => {
                    &&& !any(old(self)@, game_id_is(round.game_id))
                    &&& e is NotFoundError
                    &&& final(self)@ == old(self)@
                },
            },
    {
        match self.find_game(round.game_id) {
            Some(gi) => {
                proof {
                    lemma_first_is(self@, game_id_is(round.game_id), gi as int);
                }
                let id = new_id();
                let rd = Round {
                    id,
                    game_id: round.game_id,
                    round_number: round.round_number,
                    image_url: round.image_url,
                    answers_closed: false,
                    answers: Vec::new(),
                    round_winner: None,
                };
                proof {
                    assert(rd@ =~= created_round(id, round));
                }
                let ghost old_games = self.games@;
                let mut g = self.games.remove(gi);
                let ghost old_rounds = g.rounds@;
                g.rounds.push(rd);
                self.games.insert(gi, g);
                proof {
                    lemma_round_views_push(old_rounds, rd);
                    assert(self.games@ =~= old_games.update(gi as int, g));
                    lemma_game_views_update(old_games, gi as int, g);
                    if store_wf(game_views(old_games)) {
                        let og = game_views(old_games)[gi as int];
                        assert(game_wf(og));
                        assert(g@.players == og.players);
                        assert forall|k: int| 0 <= k < g@.rounds.len() implies (#[trigger] g@.rounds[k]).game_id
                            == g@.id by {
                            if k < og.rounds.len() {
                                assert(g@.rounds[k] == og.rounds[k]);
                            }
                        }
                    }
                    lemma_store_wf_update(game_views(old_games), gi as int, g@);
                }
                Ok(id)
            },
            None => Err(AppError::NotFoundError("not found".to_string())),
        }
    }

    /// Adds an answer to the round that the new answer names, and returns its
    /// id. The author must be a player of the round's game.
    pub fn add_answer(&mut self, answer: NewAnswer) -> (r: AppResult<u128>)
        ensures
            store_wf(old(self)@) ==> store_wf(final(self)@),
            match r {
                Ok(id) => {
                    &&& any(old(self)@, holds_round(answer.round_id))
                    &&& any(
                        game_of_round(old(self)@, answer.round_id).players,
                        player_id_is(answer.player_id),
                    )
                    &&& final(self)@ == edit_round(
                        old(self)@,
                        answer.round_id,
                        |rd: RoundView|
                            RoundView { answers: rd.answers.push(created_answer(id, answer)), ..rd },
                    )
                },
                Err(e) => {
                    &&& final(self)@ == old(self)@
                    &&& !any(old(self)@, holds_round(answer.round_id)) ==> e is NotFoundError
                    &&& any(old(self)@, holds_round(answer.round_id)) ==> {
                        &&& e is ValidationError
                        &&& !any(
                            game_of_round(old(self)@, answer.round_id).players,
                            player_id_is(answer.player_id),
                        )
                    }
                },
            },
    {
        match self.find_round(answer.round_id) {
            Some((gi, ri)) => {
                proof {
                    lemma_first_is(self@, holds_round(answer.round_id), gi as int);
                    lemma_first_is(self@[gi as int].rounds, round_id_is(answer.round_id), ri as int);
                }
                match find_player_in(&self.games[gi].players, answer.player_id) {
                    None => {
                        return Err(
                            AppError::ValidationError("Player is not part of this game".to_string()),
                        );
                    },
                    Some(_) => {},
                }
                let id = new_id();
                let a = Answer {
                    id,
                    round_id: answer.round_id,
                    player_id: answer.player_id,
                    value: answer.value,
                    likes: 0,
                    shown: false,
                };
                let ghost old_games = self.games@;
                let mut g = self.games.remove(gi);
                let ghost old_rounds = g.rounds@;
                let mut rd = g.rounds.remove(ri);
                rd.answers.push(a);
                g.rounds.insert(ri, rd);
                self.games.insert(gi, g);
                proof {
                    assert(g.rounds@ =~= old_rounds.update(ri as int, rd));
                    lemma_round_views_update(old_rounds, ri as int, rd);
                    assert(self.games@ =~= old_games.update(gi as int, g));
                    lemma_game_views_update(old_games, gi as int, g);
                    if store_wf(game_views(old_games)) {
                        let og = game_views(old_games)[gi as int];
                        assert(game_wf(og));
                        assert(g@.players == og.players);
                        assert forall|k: int| 0 <= k < g@.rounds.len() implies (#[trigger] g@.rounds[k]).game_id
                            == g@.id by {
                            if k != ri {
                                assert(g@.rounds[k] == og.rounds[k]);
                            }
                        }
                    }
                    lemma_store_wf_update(game_views(old_games), gi as int, g@);
                }
                Ok(id)
            },
            None => Err(AppError::NotFoundError("not found".to_string())),
        }
    }

    /// Sets the winner of the round of this id.
    pub fn end_round(&mut self, round_id: &u128, winner: &u128) -> (r: AppResult<()>)
        ensures
            store_wf(old(self)@) ==> store_wf(final(self)@),
            match r {
                Ok(_) => {
                    &&& any(old(self)@, holds_round(*round_id))
                    &&& final(self)@ == edit_round(
                        old(self)@,
                        *round_id,
                        |rd: RoundView| RoundView { round_winner: Some(*winner), ..rd },
                    )
                },
                Err(e) => {
                    &&& !any(old(self)@, holds_round(*round_id))
                    &&& e is NotFoundError
                    &&& final(self)@ == old(self)@
                },
            },
    {
        match self.find_round(*round_id) {
            Some((gi, ri)) => {
                proof {
                    lemma_first_is(self@, holds_round(*round_id), gi as int);
                    lemma_first_is(self@[gi as int].rounds, round_id_is(*round_id), ri as int);
                }
                let ghost old_games = self.games@;
                let mut g = self.games.remove(gi);
                let ghost old_rounds = g.rounds@;
                let mut rd = g.rounds.remove(ri);
                rd.round_winner = Some(*winner);
                g.rounds.insert(ri, rd);
                self.games.insert(gi, g);
                proof {
                    assert(g.rounds@ =~= old_rounds.update(ri as int, rd));
                    lemma_round_views_update(old_rounds, ri as int, rd);
                    assert(self.games@ =~= old_games.update(gi as int, g));
                    lemma_game_views_update(old_games, gi as int, g);
                    if store_wf(game_views(old_games)) {
                        let og = game_views(old_games)[gi as int];
                        assert(game_wf(og));
                        assert(g@.players == og.players);
                        assert forall|k: int| 0 <= k < g@.rounds.len() implies (#[trigger] g@.rounds[k]).game_id
                            == g@.id by {
                            if k != ri {
                                assert(g@.rounds[k] == og.rounds[k]);
                            }
                        }
                    }
                    lemma_store_wf_update(game_views(old_games), gi as int, g@);
                }
                Ok(())
            },
            None => Err(AppError::NotFoundError("not found".to_string())),
        }
    }

    /// Replaces answer `ai` of round `ri` of game `gi`.
    fn set_answer(&mut self, gi: usize, ri: usize, ai: usize, a: Answer)
        requires
            gi < old(self)@.len(),
            ri < old(self)@[gi as int].rounds.len(),
            ai < old(self)@[gi as int].rounds[ri as int].answers.len(),
        ensures
            store_wf(old(self)@) ==> store_wf(final(self)@),
            final(self)@ == old(self)@.update(
                gi as int,
                old(self)@[gi as int].with_round(
                    ri as int,
                    RoundView {
                        answers: old(self)@[gi as int].rounds[ri as int].answers.update(ai as int, a),
                        ..old(self)@[gi as int].rounds[ri as int]
                    },
                ),
            ),
    {
        let ghost old_games = self.games@;
        let mut g = self.games.remove(gi);
        let ghost old_rounds = g.rounds@;
        let mut rd = g.rounds.remove(ri);
        let ghost old_answers = rd.answers@;
        rd.answers.remove(ai);
        rd.answers.insert(ai, a);
        g.rounds.insert(ri, rd);
        self.games.insert(gi, g);
        proof {
            assert(rd.answers@ =~= old_answers.update(ai as int, a));
            assert(g.rounds@ =~= old_rounds.update(ri as int, rd));
            lemma_round_views_update(old_rounds, ri as int, rd);
            assert(self.games@ =~= old_games.update(gi as int, g));
            lemma_game_views_update(old_games, gi as int, g);
            lemma_store_wf_update(game_views(old_games), gi as int, g@);
        }
    }

    /// Sets the answer of this id as shown.
    pub fn show_answer(&mut self, answer_id: &u128) -> (r: AppResult<()>)
        ensures
            store_wf(old(self)@) ==> store_wf(final(self)@),
            match r {
                Ok(_) => {
                    &&& any(old(self)@, holds_answer(*answer_id))
                    &&& final(self)@ == edit_answer(
                        old(self)@,
                        *answer_id,
                        |a: Answer| Answer { shown: true, ..a },
                    )
                },
                Err(e) => {
                    &&& !any(old(self)@, holds_answer(*answer_id))
                    &&& e is NotFoundError
                    &&& final(self)@ == old(self)@
                },
            },
    {
        match self.find_answer(*answer_id) {
            Some((gi, ri, ai)) => {
                proof {
                    lemma_first_is(self@, holds_answer(*answer_id), gi as int);
                    lemma_first_is(self@[gi as int].rounds, round_holds_answer(*answer_id), ri as int);
                    lemma_first_is(
                        self@[gi as int].rounds[ri as int].answers,
                        answer_id_is(*answer_id),
                        ai as int,
                    );
                }
                let mut a = self.games[gi].rounds[ri].answers[ai].duplicate();
                a.shown = true;
                self.set_answer(gi, ri, ai, a);
                Ok(())
            },
            None => Err(AppError::NotFoundError("not found".to_string())),
        }
    }

    /// Adds a like to the answer of this id.
    pub fn increment_like(&mut self, answer_id: &u128) -> (r: AppResult<()>)
        ensures
            store_wf(old(self)@) ==> store_wf(final(self)@),
            match r {
                Ok(_) => {
                    &&& any(old(self)@, holds_answer(*answer_id))
                    &&& answer_of(old(self)@, *answer_id).likes < i32::MAX
                    &&& final(self)@ == edit_answer(
                        old(self)@,
                        *answer_id,
                        |a: Answer| Answer { likes: (a.likes + 1) as i32, ..a },
                    )
                },
                Err(e) => {
                    &&& final(self)@ == old(self)@
                    &&& !any(old(self)@, holds_answer(*answer_id)) ==> e is NotFoundError
                    &&& any(old(self)@, holds_answer(*answer_id)) ==> e is InternalError
                        && answer_of(old(self)@, *answer_id).likes == i32::MAX
                },
            },
    {
        match self.find_answer(*answer_id) {
            Some((gi, ri, ai)) => {
                proof {
                    lemma_first_is(self@, holds_answer(*answer_id), gi as int);
                    lemma_first_is(self@[gi as int].rounds, round_holds_answer(*answer_id), ri as int);
                    lemma_first_is(
                        self@[gi as int].rounds[ri as int].answers,
                        answer_id_is(*answer_id),
                        ai as int,
                    );
                }
                let mut a = self.games[gi].rounds[ri].answers[ai].duplicate();
                if a.likes == i32::MAX {
                    return Err(AppError::InternalError("likes out of range".to_string()));
                }
                a.likes = a.likes + 1;
                self.set_answer(gi, ri, ai, a);
                Ok(())
            },
            None => Err(AppError::NotFoundError("not found".to_string())),
        }
    }

    /// Ends the game of this id: its winner is the first of its players with
    /// the highest score, and it is finished.
    pub fn end(&mut self, game_id: &u128) -> (r: AppResult<()>)
        ensures
            store_wf(old(self)@) ==> store_wf(final(self)@),
            match r {
                Ok(_) => {
                    &&& any(old(self)@, game_id_is(*game_id))
                    &&& final(self)@ == edit_game(
                        old(self)@,
                        *game_id,
                        |g: GameView|
                            GameView {
                                status: GameStatus::Finished,
                                winner: winner_of(g.players),
                                ..g
                            },
                    )
                },
                Err(e) => {
                    &&& !any(old(self)@, game_id_is(*game_id))
                    &&& e is NotFoundError
                    &&& final(self)@ == old(self)@
                },
            },
    {
        match self.find_game(*game_id) {
            Some(i) => {
                proof {
                    lemma_first_is(self@, game_id_is(*game_id), i as int);
                }
                let winner = top_scorer(&self.games[i].players);
                let ghost old_games = self.games@;
                let mut g = self.games.remove(i);
                g.status = GameStatus::Finished;
                g.winner = winner;
                self.games.insert(i, g);
                proof {
                    assert(self.games@ =~= old_games.update(i as int, g));
                    lemma_game_views_update(old_games, i as int, g);
                    if store_wf(game_views(old_games)) {
                        let og = game_views(old_games)[i as int];
                        assert(game_wf(og));
                        assert(g@.players == og.players);
                        assert(g@.rounds == og.rounds);
                    }
                    lemma_store_wf_update(game_views(old_games), i as int, g@);
                }
                Ok(())
            },
            None => Err(AppError::NotFoundError("not found".to_string())),
        }
    }

    /// The state that clients see of the game of this id.
    pub fn get_state(&self, id: &u128) -> (r: AppResult<GameState>)
        ensures
            match r {
                Ok(s) => any(self@, game_id_is(*id)) && state_fits(s, game_of(self@, *id)),
                Err(e) => !any(self@, game_id_is(*id)) && e is NotFoundError,
            },
    {
        let game = self.get(id)?;
        Ok(GameState::from_game(game))
    }
}

} // verus!
