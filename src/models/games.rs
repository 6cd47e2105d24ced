use vstd::prelude::*;

use crate::lookup::{any, first, lemma_first_is, lemma_none};

verus! {

/// Where a game is in its life. It only ever moves forward:
/// `Pending`, then `Started`, then `Finished`.
#[derive(Clone, Copy, Debug, PartialEq, Eq, Structural)]
pub enum GameStatus {
    Pending,
    Started,
    Finished,
}

impl GameStatus {
    /// Position of the status along the one direction a game may move.
    pub open spec fn rank(self) -> int {
        match self {
            GameStatus::Pending => 0,
            GameStatus::Started => 1,
            GameStatus::Finished => 2,
        }
    }
}

/// A participant of one game, known by a display name that is unique in it.
#[derive(Clone, Debug)]
pub struct Player {
    pub id: u128,
    pub game_id: u128,
    pub username: String,
    pub active: bool,
    pub is_observer: bool,
    pub score: i32,
}

impl Player {
    /// The role that this player's record gives its connection.
    pub open spec fn kind(self) -> PlayerType {
        if self.is_observer {
            PlayerType::Observer { id: self.id, display_name: self.username }
        } else {
            PlayerType::Player { id: self.id, display_name: self.username }
        }
    }

    pub fn duplicate(&self) -> (r: Player)
        ensures
            r == *self,
    {
        Player {
            id: self.id,
            game_id: self.game_id,
            username: self.username.clone(),
            active: self.active,
            is_observer: self.is_observer,
            score: self.score,
        }
    }

    pub fn to_player_type(self) -> (r: PlayerType)
        ensures
            r == self.kind(),
    {
        if self.is_observer {
            PlayerType::Observer { id: self.id, display_name: self.username }
        } else {
            PlayerType::Player { id: self.id, display_name: self.username }
        }
    }
}

/// One answer given to a round.
#[derive(Clone, Debug)]
pub struct Answer {
    pub id: u128,
    pub round_id: u128,
    pub player_id: u128,
    pub value: String,
    pub likes: i32,
    pub shown: bool,
}

impl Answer {
    pub fn duplicate(&self) -> (r: Answer)
        ensures
            r == *self,
    {
        Answer {
            id: self.id,
            round_id: self.round_id,
            player_id: self.player_id,
            value: self.value.clone(),
            likes: self.likes,
            shown: self.shown,
        }
    }
}

/// One image-guessing cycle of a game.
#[derive(Clone, Debug)]
pub struct Round {
    pub id: u128,
    pub game_id: u128,
    /// The round number, from 1.
    pub round_number: i32,
    /// The image of the round, copied from the game when the round started.
    pub image_url: String,
    /// Once set, no answer can be added to the round.
    pub answers_closed: bool,
    /// The answers, in the order in which they came.
    pub answers: Vec<Answer>,
    pub round_winner: Option<u128>,
}

pub struct RoundView {
    pub id: u128,
    pub game_id: u128,
    pub round_number: i32,
    pub image_url: String,
    pub answers_closed: bool,
    pub answers: Seq<Answer>,
    pub round_winner: Option<u128>,
}

impl View for Round {
    type V = RoundView;

    open spec fn view(&self) -> RoundView {
        RoundView {
            id: self.id,
            game_id: self.game_id,
            round_number: self.round_number,
            image_url: self.image_url,
            answers_closed: self.answers_closed,
            answers: self.answers@,
            round_winner: self.round_winner,
        }
    }
}

/// The views of a sequence of rounds.
pub open spec fn round_views(rs: Seq<Round>) -> Seq<RoundView> {
    rs.map_values(|r: Round| r@)
}

/// The views of a sequence of games.
pub open spec fn game_views(gs: Seq<Game>) -> Seq<GameView> {
    gs.map_values(|g: Game| g@)
}

/// Replacing one round replaces its view.
pub proof fn lemma_round_views_update(rs: Seq<Round>, i: int, r: Round)
    requires
        0 <= i < rs.len(),
    ensures
        round_views(rs.update(i, r)) == round_views(rs).update(i, r@),
{
    assert(round_views(rs.update(i, r)) =~= round_views(rs).update(i, r@));
}

/// Adding a round at the end adds its view.
pub proof fn lemma_round_views_push(rs: Seq<Round>, r: Round)
    ensures
        round_views(rs.push(r)) == round_views(rs).push(r@),
{
    assert(round_views(rs.push(r)) =~= round_views(rs).push(r@));
}

/// Replacing one game replaces its view.
pub proof fn lemma_game_views_update(gs: Seq<Game>, i: int, g: Game)
    requires
        0 <= i < gs.len(),
    ensures
        game_views(gs.update(i, g)) == game_views(gs).update(i, g@),
{
    assert(game_views(gs.update(i, g)) =~= game_views(gs).update(i, g@));
}

/// A game with its rounds and players, as the store hands it out.
#[derive(Clone, Debug)]
pub struct Game {
    pub id: u128,
    /// The game master: the user that created the game and runs it.
    pub user_id: u128,
    pub name: String,
    /// The images of the game, one for each round.
    pub image_urls: Vec<String>,
    /// The rounds started so far, in order.
    pub rounds: Vec<Round>,
    pub players: Vec<Player>,
    pub status: GameStatus,
    pub winner: Option<u128>,
}

pub struct GameView {
    pub id: u128,
    pub user_id: u128,
    pub name: String,
    pub image_urls: Seq<String>,
    pub rounds: Seq<RoundView>,
    pub players: Seq<Player>,
    pub status: GameStatus,
    pub winner: Option<u128>,
}

impl View for Game {
    type V = GameView;

    open spec fn view(&self) -> GameView {
        GameView {
            id: self.id,
            user_id: self.user_id,
            name: self.name,
            image_urls: self.image_urls@,
            rounds: round_views(self.rounds@),
            players: self.players@,
            status: self.status,
            winner: self.winner,
        }
    }
}

pub open spec fn game_id_is(id: u128) -> spec_fn(GameView) -> bool {
    |g: GameView| g.id == id
}

pub open spec fn round_id_is(id: u128) -> spec_fn(RoundView) -> bool {
    |r: RoundView| r.id == id
}

pub open spec fn answer_id_is(id: u128) -> spec_fn(Answer) -> bool {
    |a: Answer| a.id == id
}

pub open spec fn player_id_is(id: u128) -> spec_fn(Player) -> bool {
    |p: Player| p.id == id
}

pub open spec fn player_named(name: Seq<char>) -> spec_fn(Player) -> bool {
    |p: Player| p.username@ == name
}

/// A game that holds a round of this id.
pub open spec fn holds_round(id: u128) -> spec_fn(GameView) -> bool {
    |g: GameView| any(g.rounds, round_id_is(id))
}

/// A round that holds an answer of this id.
pub open spec fn round_holds_answer(id: u128) -> spec_fn(RoundView) -> bool {
    |r: RoundView| any(r.answers, answer_id_is(id))
}

/// A game that holds an answer of this id, in one of its rounds.
pub open spec fn holds_answer(id: u128) -> spec_fn(GameView) -> bool {
    |g: GameView| any(g.rounds, round_holds_answer(id))
}

/// A game that holds a player of this id.
pub open spec fn holds_player(id: u128) -> spec_fn(GameView) -> bool {
    |g: GameView| any(g.players, player_id_is(id))
}

/// A game is well formed: its players have distinct display names, and each
/// player and each round carries the game's id.
pub open spec fn game_wf(g: GameView) -> bool {
    &&& forall|i: int, j: int|
        0 <= i < j < g.players.len() ==> (#[trigger] g.players[i]).username@
            != (#[trigger] g.players[j]).username@
    &&& forall|i: int| 0 <= i < g.players.len() ==> (#[trigger] g.players[i]).game_id == g.id
    &&& forall|i: int| 0 <= i < g.rounds.len() ==> (#[trigger] g.rounds[i]).game_id == g.id
}

/// Every game of the store is well formed.
pub open spec fn store_wf(gs: Seq<GameView>) -> bool {
    forall|i: int| 0 <= i < gs.len() ==> game_wf(#[trigger] gs[i])
}

/// Replacing a game by a well-formed one keeps the store well formed.
pub proof fn lemma_store_wf_update(gs: Seq<GameView>, i: int, g: GameView)
    requires
        0 <= i < gs.len(),
    ensures
        store_wf(gs) && game_wf(g) ==> store_wf(gs.update(i, g)),
{
    if store_wf(gs) && game_wf(g) {
        assert forall|k: int| 0 <= k < gs.len() implies game_wf(#[trigger] gs.update(i, g)[k]) by {
            if k != i {
                assert(game_wf(gs[k]));
            }
        }
    }
}

/// How many players of `ps` carry the name.
pub open spec fn count_named(ps: Seq<Player>, name: Seq<char>) -> nat
    decreases ps.len(),
{
    if ps.len() == 0 {
        0
    } else {
        count_named(ps.drop_last(), name) + if ps.last().username@ == name {
            1nat
        } else {
            0nat
        }
    }
}

/// No player of `ps` carries the name, so none is counted.
pub proof fn lemma_count_none(ps: Seq<Player>, name: Seq<char>)
    requires
        !any(ps, player_named(name)),
    ensures
        count_named(ps, name) == 0,
    decreases ps.len(),
{
    if ps.len() > 0 {
        let t = ps.drop_last();
        assert forall|j: int| 0 <= j < t.len() implies !player_named(name)(#[trigger] t[j]) by {
            assert(t[j] == ps[j]);
        }
        lemma_none(t, player_named(name));
        lemma_count_none(t, name);
        assert(!player_named(name)(ps[ps.len() - 1]));
    }
}

/// Where names are distinct, a name that some player carries is carried by
/// exactly one.
pub proof fn lemma_count_unique(ps: Seq<Player>, name: Seq<char>)
    requires
        forall|i: int, j: int|
            0 <= i < j < ps.len() ==> (#[trigger] ps[i]).username@ != (#[trigger] ps[j]).username@,
        any(ps, player_named(name)),
    ensures
        count_named(ps, name) == 1,
    decreases ps.len(),
{
    let n = ps.len() - 1;
    let t = ps.drop_last();
    let k = choose|j: int| 0 <= j < ps.len() && player_named(name)(#[trigger] ps[j]);
    if ps[n].username@ == name {
        assert forall|j: int| 0 <= j < t.len() implies !player_named(name)(#[trigger] t[j]) by {
            assert(t[j] == ps[j]);
            assert(ps[j].username@ != ps[n].username@);
        }
        lemma_none(t, player_named(name));
        lemma_count_none(t, name);
    } else {
        assert(t[k] == ps[k]);
        assert(player_named(name)(t[k]));
        assert forall|i: int, j: int|
            0 <= i < j < t.len() implies (#[trigger] t[i]).username@ != (#[trigger] t[j]).username@ by {
            assert(t[i] == ps[i] && t[j] == ps[j]);
        }
        lemma_count_unique(t, name);
    }
}

impl GameView {
    pub open spec fn with_status(self, status: GameStatus) -> GameView {
        GameView { status, ..self }
    }

    pub open spec fn with_round(self, i: int, r: RoundView) -> GameView {
        GameView { rounds: self.rounds.update(i, r), ..self }
    }

    pub open spec fn with_player(self, i: int, p: Player) -> GameView {
        GameView { players: self.players.update(i, p), ..self }
    }
}

/// The role of a connection in one game.
#[derive(Clone, Debug, PartialEq, Eq)]
pub enum PlayerType {
    /// The owner of the game; has no player record.
    GameMaster,
    /// A player that may answer and score.
    Player { id: u128, display_name: String },
    /// A late joiner that only watches.
    Observer { id: u128, display_name: String },
}

impl PlayerType {
    /// The player record bound to the role, if any.
    pub open spec fn player_id(self) -> Option<u128> {
        match self {
            PlayerType::GameMaster => None,
            PlayerType::Player { id, .. } => Some(id),
            PlayerType::Observer { id, .. } => Some(id),
        }
    }

    pub fn duplicate(&self) -> (r: PlayerType)
        ensures
            r == *self,
    {
        match self {
            PlayerType::GameMaster => PlayerType::GameMaster,
            PlayerType::Player { id, display_name } => PlayerType::Player {
                id: *id,
                display_name: display_name.clone(),
            },
            PlayerType::Observer { id, display_name } => PlayerType::Observer {
                id: *id,
                display_name: display_name.clone(),
            },
        }
    }

    /// The player record bound to the role, if any.
    pub fn id(&self) -> (r: Option<u128>)
        ensures
            r == self.player_id(),
    {
        match self {
            PlayerType::GameMaster => None,
            PlayerType::Player { id, .. } => Some(*id),
            PlayerType::Observer { id, .. } => Some(*id),
        }
    }
}

/// What a client asks of the game.
#[derive(Clone, Debug)]
pub enum GameAction {
    /// Claims a display name; handled while the connection negotiates.
    PlayerJoin { display_name: String },
    /// Starts the round of this number.
    StartRound { round: i32 },
    /// Answers a round.
    UserAnswer { round_id: u128, answer: String },
    /// Closes a round to answers.
    CloseAnswers { round_id: u128 },
    /// Shows one answer to everyone.
    RevealAnswer { answer_id: u128 },
    /// Adds a like to an answer.
    LikeAnswer { answer_id: u128 },
    /// Ends a round with a winner, given as the text of a player id.
    EndRound { round_id: u128, winner: String },
    /// Ends the game.
    EndGame,
}

/// What the library sends to clients.
#[derive(Clone, Debug)]
pub enum GameMessage {
    RequestDisplayName,
    UnavailableDisplayName,
    JoinSuccess { player_type: PlayerType },
    NewPlayer { player_type: PlayerType },
    Notification { message: String },
    StateChange { state: GameState },
}

/// A message published for every connection, with the game it belongs to.
#[derive(Clone, Debug)]
pub struct GameBroadcast {
    pub game_id: u128,
    pub message: String,
}

/// The state of a game as clients see it.
#[derive(Clone, Debug)]
pub struct GameState {
    pub game_id: u128,
    pub name: String,
    /// The latest round, if any has started.
    pub round_id: Option<u128>,
    /// Whether the latest round uses the last image.
    pub last_round: bool,
    pub answers_closed: bool,
    pub status: GameStatus,
    pub players: Vec<Player>,
    pub round_number: Option<i32>,
    pub image_url: Option<String>,
    pub answers: Vec<Answer>,
    pub round_winner: Option<Player>,
    /// The score of each player that is not an observer, by display name,
    /// in player order. This stands for a map from display name to score:
    /// names are unique in a well-formed game (`game_wf`), so each name
    /// occurs once, and keeping the pairs in player order keeps the contract
    /// free of a hash map's order.
    pub scores: Vec<(String, i32)>,
    pub game_winner: Option<Player>,
}

#[derive(Clone, Debug)]
pub struct NewGame {
    pub user_id: u128,
    pub name: String,
    pub image_urls: Vec<String>,
}

#[derive(Clone, Debug)]
pub struct UpdateGame {
    pub name: String,
    pub image_urls: Vec<String>,
}

#[derive(Clone, Debug)]
pub struct GameFilter {
    pub user_id: Option<u128>,
    pub status: Option<GameStatus>,
}

#[derive(Clone, Debug)]
pub struct NewRound {
    pub game_id: u128,
    pub round_number: i32,
    pub image_url: String,
}

#[derive(Clone, Debug)]
pub struct NewAnswer {
    pub player_id: u128,
    pub round_id: u128,
    pub value: String,
}

/// The score of each player that is not an observer, by display name, in
/// player order.
pub open spec fn scores_of(ps: Seq<Player>) -> Seq<(String, i32)>
    decreases ps.len(),
{
    if ps.len() == 0 {
        Seq::empty()
    } else {
        let rest = scores_of(ps.drop_last());
        if ps.last().is_observer {
            rest
        } else {
            rest.push((ps.last().username, ps.last().score))
        }
    }
}

/// The first player of `ps` with the given id, if any.
pub open spec fn player_with(ps: Seq<Player>, id: Option<u128>) -> Option<Player> {
    match id {
        Some(i) => if any(ps, player_id_is(i)) {
            Some(ps[first(ps, player_id_is(i))])
        } else {
            None
        },
        None => None,
    }
}

/// The state of the game that clients see: the latest round, if any, the
/// players with their scores, and the winners resolved to players.
pub open spec fn state_fits(s: GameState, g: GameView) -> bool {
    &&& s.game_id == g.id
    &&& s.name == g.name
    &&& s.status == g.status
    &&& s.players@ == g.players
    &&& s.scores@ == scores_of(g.players)
    &&& s.game_winner == player_with(g.players, g.winner)
    &&& if g.rounds.len() == 0 {
        &&& s.round_id is None
        &&& s.round_number is None
        &&& s.image_url is None
        &&& s.answers@.len() == 0
        &&& !s.answers_closed
        &&& s.round_winner is None
        &&& !s.last_round
    } else {
        let rd = g.rounds.last();
        &&& s.round_id == Some(rd.id)
        &&& s.round_number == Some(rd.round_number)
        &&& s.image_url == Some(rd.image_url)
        &&& s.answers@ == rd.answers
        &&& s.answers_closed == rd.answers_closed
        &&& s.round_winner == player_with(g.players, rd.round_winner)
        &&& s.last_round == (rd.round_number as int == g.image_urls.len())
    }
}

fn copy_players(ps: &Vec<Player>) -> (r: Vec<Player>)
    ensures
        r@ == ps@,
{
    let mut r: Vec<Player> = Vec::new();
    let mut i: usize = 0;
    while i < ps.len()
        invariant
            i <= ps.len(),
            r@ == ps@.subrange(0, i as int),
        decreases ps.len() - i,
    {
        r.push(ps[i].duplicate());
        i += 1;
        assert(r@ =~= ps@.subrange(0, i as int));
    }
    assert(r@ =~= ps@);
    r
}

fn copy_answers(answers: &Vec<Answer>) -> (r: Vec<Answer>)
    ensures
        r@ == answers@,
{
    let mut r: Vec<Answer> = Vec::new();
    let mut i: usize = 0;
    while i < answers.len()
        invariant
            i <= answers.len(),
            r@ == answers@.subrange(0, i as int),
        decreases answers.len() - i,
    {
        r.push(answers[i].duplicate());
        i += 1;
        assert(r@ =~= answers@.subrange(0, i as int));
    }
    assert(r@ =~= answers@);
    r
}

fn scores(ps: &Vec<Player>) -> (r: Vec<(String, i32)>)
    ensures
        r@ == scores_of(ps@),
{
    let mut r: Vec<(String, i32)> = Vec::new();
    let mut i: usize = 0;
    while i < ps.len()
        invariant
            i <= ps.len(),
            r@ == scores_of(ps@.subrange(0, i as int)),
        decreases ps.len() - i,
    {
        proof {
            assert(ps@.subrange(0, i + 1).drop_last() =~= ps@.subrange(0, i as int));
        }
        if !ps[i].is_observer {
            r.push((ps[i].username.clone(), ps[i].score));
        }
        i += 1;
    }
    assert(ps@.subrange(0, ps@.len() as int) =~= ps@);
    r
}

fn find_player(ps: &Vec<Player>, id: Option<u128>) -> (r: Option<Player>)
    ensures
        r == player_with(ps@, id),
{
    match id {
        None => None,
        Some(pid) => {
            let mut i: usize = 0;
            while i < ps.len()
                invariant
                    i <= ps.len(),
                    id == Some(pid),
                    forall|j: int| 0 <= j < i ==> !player_id_is(pid)(#[trigger] ps@[j]),
                decreases ps.len() - i,
            {
                if ps[i].id == pid {
                    proof {
                        lemma_first_is(ps@, player_id_is(pid), i as int);
                    }
                    let p = ps[i].duplicate();
                    return Some(p);
                }
                i += 1;
            }
            proof {
                lemma_none(ps@, player_id_is(pid));
            }
            None
        },
    }
}

impl GameState {
    /// The state that clients see of this game.
    pub fn from_game(game: &Game) -> (r: GameState)
        ensures
            state_fits(r, game@),
    {
        let players = copy_players(&game.players);
        let scores = scores(&game.players);
        let game_winner = find_player(&game.players, game.winner);
        let n = game.rounds.len();
        if n == 0 {
            GameState {
                game_id: game.id,
                name: game.name.clone(),
                round_id: None,
                last_round: false,
                answers_closed: false,
                status: game.status,
                players,
                round_number: None,
                image_url: None,
                answers: Vec::new(),
                round_winner: None,
                scores,
                game_winner,
            }
        } else {
            let rd = &game.rounds[n - 1];
            let last_round = rd.round_number as usize == game.image_urls.len()
                && rd.round_number >= 0;
            GameState {
                game_id: game.id,
                name: game.name.clone(),
                round_id: Some(rd.id),
                last_round,
                answers_closed: rd.answers_closed,
                status: game.status,
                players,
                round_number: Some(rd.round_number),
                image_url: Some(rd.image_url.clone()),
                answers: copy_answers(&rd.answers),
                round_winner: find_player(&game.players, rd.round_winner),
                scores,
                game_winner,
            }
        }
    }
}

} // verus!
