use vstd::prelude::*;

use crate::error::{AppError, AppResult};
use crate::lookup::{any, first, is_first, lemma_exists_first, lemma_first_is, lemma_none};
use crate::models::games::{store_wf, 
    game_id_is, holds_player, player_named, GameAction, GameBroadcast, GameMessage,
    GameStatus, GameView, Player, PlayerType,
};
use crate::repositories::games::{edit_player, game_of, player_added, player_of, GameRepo};
use crate::models::users::User;
use crate::models::games::{count_named, lemma_count_none, state_fits};
use crate::services::game::{GameActionService, GameBroadcastService};
use crate::services::session::{display_name_key, lookup, SessionManager};

verus! {

/// The display name that no player may take.
pub open spec fn reserved_name() -> Seq<char> {
    "Game Master"@
}

/// A name that a guest may claim in game `g`: not the reserved name, and not
/// the name of a player of the game.
pub open spec fn name_available(g: GameView, name: Seq<char>) -> bool {
    name != reserved_name() && !any(g.players, player_named(name))
}

/// One inbound frame, as the transport and the action parser deliver it.
#[derive(Clone, Debug)]
pub enum Frame {
    /// A text frame that reads as an action.
    Action(GameAction),
    /// A text frame that reads as no action.
    Unreadable,
    /// The peer closed the connection.
    Closed,
    /// The transport failed.
    Failed,
    /// Any other frame (binary, ping, pong).
    Other,
}

/// Where a display-name claim stands after one frame.
#[derive(Clone, Debug)]
pub enum ClaimStep {
    /// The connection joined the game in this role.
    Joined(PlayerType),
    /// The name was refused: tell the client and wait for another.
    NameTaken,
    /// The frame was no claim: keep waiting.
    Waiting,
}

/// What the inbound unit of an active connection does with one frame.
#[derive(Clone, Debug)]
pub enum InboundStep {
    /// Apply the action and publish its effect.
    Apply(GameAction),
    /// Ignore the frame.
    Skip,
    /// The connection is over.
    Stop,
}

/// The role `t` is that of player record `p`.
pub open spec fn role_of_player(t: PlayerType, p: Player) -> bool {
    match t {
        PlayerType::GameMaster => false,
        PlayerType::Player { id, display_name } => {
            !p.is_observer && id == p.id && display_name@ == p.username@
        },
        PlayerType::Observer { id, display_name } => {
            p.is_observer && id == p.id && display_name@ == p.username@
        },
    }
}

/// What a claim of `name` for session `sid` in game `game_id` does to the
/// store (`old` to `new`) and the sessions (`olds` to `news`).
pub open spec fn join_post(
    old: Seq<GameView>,
    new: Seq<GameView>,
    olds: Seq<(Seq<char>, Seq<char>, u128)>,
    news: Seq<(Seq<char>, Seq<char>, u128)>,
    game_id: u128,
    sid: Seq<char>,
    name: Seq<char>,
    r: AppResult<ClaimStep>,
) -> bool {
    match r {
        Ok(ClaimStep::Joined(t)) => {
            let gi = first(old, game_id_is(game_id));
            let id = t.player_id().unwrap();
            &&& any(old, game_id_is(game_id))
            &&& name_available(game_of(old, game_id), name)
            &&& t.player_id() is Some
            &&& player_added(
                old,
                new,
                game_id,
                name,
                game_of(old, game_id).status != GameStatus::Pending,
                id,
            )
            &&& role_of_player(t, new[gi].players.last())
            &&& news == olds.push((sid, display_name_key(game_id), id))
        },
        Ok(ClaimStep::NameTaken) => {
            &&& any(old, game_id_is(game_id))
            &&& !name_available(game_of(old, game_id), name)
            &&& new == old
            &&& news == olds
        },
        Ok(ClaimStep::Waiting) => false,
        Err(e) => {
            &&& e is NotFoundError
            &&& !any(old, game_id_is(game_id))
            &&& new == old
            &&& news == olds
        },
    }
}

/// What one frame of the claim protocol does to the store and the sessions.
pub open spec fn claim_post(
    old: Seq<GameView>,
    new: Seq<GameView>,
    olds: Seq<(Seq<char>, Seq<char>, u128)>,
    news: Seq<(Seq<char>, Seq<char>, u128)>,
    game_id: u128,
    sid: Seq<char>,
    frame: Frame,
    r: AppResult<ClaimStep>,
) -> bool {
    match frame {
        Frame::Closed | Frame::Failed => {
            &&& r matches Err(e) && e is InternalError
            &&& new == old
            &&& news == olds
        },
        Frame::Action(GameAction::PlayerJoin { display_name }) => join_post(
            old,
            new,
            olds,
            news,
            game_id,
            sid,
            display_name@,
            r,
        ),
        _ => r matches Ok(ClaimStep::Waiting) && new == old && news == olds,
    }
}

/// Takes one frame of the display-name claim that a guest runs before it
/// joins. The game is read afresh, so a name that another connection claimed
/// meanwhile is seen as taken. A guest that joins a game that is no longer
/// pending watches as an observer.
pub fn claim_display_name(
    repo: &mut GameRepo,
    sessions: &mut SessionManager,
    game_id: &u128,
    session_id: &str,
    frame: &Frame,
) -> (r: AppResult<ClaimStep>)
    ensures
        store_wf(old(repo)@) ==> store_wf(final(repo)@),
        claim_post(
            old(repo)@,
            final(repo)@,
            old(sessions)@,
            final(sessions)@,
            *game_id,
            session_id@,
            *frame,
            r,
        ),
{
    match frame {
        Frame::Closed | Frame::Failed => Err(AppError::InternalError("Websocket closed".to_string())),
        Frame::Action(GameAction::PlayerJoin { display_name }) => {
            let observer = repo.get(game_id)?.status != GameStatus::Pending;
            let reserved = "Game Master".to_owned();
            proof {
                reveal_strlit("Game Master");
            }
            if *display_name == reserved {
                return Ok(ClaimStep::NameTaken);
            }
            let ghost old_games = repo@;
            match repo.add_player(game_id, display_name.as_str(), &observer)? {
                None => Ok(ClaimStep::NameTaken),
                Some(player_id) => {
                    let player_type = if observer {
                        PlayerType::Observer { id: player_id, display_name: display_name.clone() }
                    } else {
                        PlayerType::Player { id: player_id, display_name: display_name.clone() }
                    };
                    sessions.set_game_display_name(session_id, game_id, &player_id);
                    Ok(ClaimStep::Joined(player_type))
                },
            }
        },
        _ => Ok(ClaimStep::Waiting),
    }
}


/// What the fast paths of identity resolution decide, with the store going
/// from `old` to `new`, for a connection of session `sid` whose signed-in
/// user, if any, is `user_id`. `Ok(None)` asks for the claim protocol.
pub open spec fn known_post(
    old: Seq<GameView>,
    new: Seq<GameView>,
    sessions: Seq<(Seq<char>, Seq<char>, u128)>,
    game_id: u128,
    sid: Seq<char>,
    user_id: Option<u128>,
    r: AppResult<Option<PlayerType>>,
) -> bool {
    if !any(old, game_id_is(game_id)) {
        r matches Err(e) && e is NotFoundError && new == old
    } else if user_id == Some(game_of(old, game_id).user_id) {
        r matches Ok(Some(PlayerType::GameMaster)) && new == old
    } else {
        match lookup(sessions, sid, display_name_key(game_id)) {
            None => r matches Ok(None) && new == old,
            Some(pid) => if !any(old, holds_player(pid)) {
                r matches Ok(None) && new == old
            } else if player_of(old, pid).game_id != game_id {
                r matches Err(e) && e is InternalError && new == old
            } else {
                &&& r matches Ok(Some(t)) && role_of_player(t, player_of(old, pid))
                &&& new == edit_player(old, pid, |p: Player| Player { active: true, ..p })
            },
        }
    }
}

/// The fast paths of identity resolution: the game's owner is its game
/// master; a session that joined the game before gets its player back,
/// marked active. Returns none when the connection must claim a name.
pub fn get_player_type(
    repo: &mut GameRepo,
    sessions: &SessionManager,
    game_id: &u128,
    session_id: &str,
    user: &Option<User>,
) -> (r: AppResult<Option<PlayerType>>)
    ensures
        store_wf(old(repo)@) ==> store_wf(final(repo)@),
        known_post(
            old(repo)@,
            final(repo)@,
            sessions@,
            *game_id,
            session_id@,
            match user {
                Some(u) => Some(u.id),
                None => None,
            },
            r,
        ),
{
    let owner = repo.get(game_id)?.user_id;
    match user {
        Some(u) => {
            if u.id == owner {
                return Ok(Some(PlayerType::GameMaster));
            }
        },
        None => {},
    }
    match sessions.get_game_display_name(session_id, game_id) {
        None => Ok(None),
        Some(player_id) => {
            let (player_game, player_type) = match repo.get_player(&player_id) {
                Ok(p) => (p.game_id, p.duplicate().to_player_type()),
                Err(_) => return Ok(None),
            };
            if player_game != *game_id {
                return Err(AppError::InternalError("Player is not in the game".to_string()));
            }
            repo.mark_player_active(&player_id)?;
            Ok(Some(player_type))
        },
    }
}

/// The frames that a connection whose role is `t` applies, skips, or stops on.
pub open spec fn inbound_fits(t: PlayerType, frame: Frame, r: InboundStep) -> bool {
    match frame {
        Frame::Closed | Frame::Failed => r is Stop,
        Frame::Action(a) => if t is Observer {
            r is Skip
        } else {
            r == InboundStep::Apply(a)
        },
        _ => r is Skip,
    }
}

/// What the inbound unit of an active connection does with one frame:
/// observers only watch for the end of the connection; other roles apply
/// each action. Unreadable and other frames never end the connection.
pub fn inbound_step(player_type: &PlayerType, frame: Frame) -> (r: InboundStep)
    ensures
        inbound_fits(*player_type, frame, r),
{
    match frame {
        Frame::Closed | Frame::Failed => InboundStep::Stop,
        Frame::Action(a) => match player_type {
            PlayerType::Observer { .. } => InboundStep::Skip,
            _ => InboundStep::Apply(a),
        },
        _ => InboundStep::Skip,
    }
}

/// The message that the outbound unit forwards to its socket: a published
/// message of its own game, and nothing of another game.
pub fn handle_broadcast(broadcast: &GameBroadcast, game_id: &u128) -> (r: Option<String>)
    ensures
        broadcast.game_id == *game_id ==> r == Some(broadcast.message),
        broadcast.game_id != *game_id ==> r is None,
{
    if broadcast.game_id == *game_id {
        Some(broadcast.message.clone())
    } else {
        None
    }
}

/// Applies an action of an active connection and returns what it publishes:
/// a fresh snapshot after every applied action but a display-name claim.
pub fn handle_incoming_message(
    repo: &mut GameRepo,
    game_service: &GameActionService,
    broadcast_service: &GameBroadcastService,
    action: &GameAction,
) -> (r: AppResult<Option<GameMessage>>)
    requires
        game_service.game_id == broadcast_service.game_id,
    ensures
        store_wf(old(repo)@) ==> store_wf(final(repo)@),
        match r {
            Ok(m) => {
                &&& game_service.handle_action_post(old(repo)@, final(repo)@, *action, Ok(()))
                &&& action is PlayerJoin ==> m is None
                &&& !(action is PlayerJoin) ==> {
                    &&& any(final(repo)@, game_id_is(game_service.game_id))
                    &&& m matches Some(GameMessage::StateChange { state }) && state_fits(
                        state,
                        game_of(final(repo)@, game_service.game_id),
                    )
                }
            },
            Err(e) => {
                ||| game_service.handle_action_post(old(repo)@, final(repo)@, *action, Err(e))
                ||| {
                    &&& game_service.handle_action_post(old(repo)@, final(repo)@, *action, Ok(()))
                    &&& e is NotFoundError
                    &&& !any(final(repo)@, game_id_is(game_service.game_id))
                }
            },
        },
{
    game_service.handle_action(repo, action)?;
    broadcast_service.broadcast_action(repo, action)
}

/// Ends a connection: a participant with a player record is marked inactive,
/// and a fresh snapshot is returned for the others; a game master leaves no
/// trace.
pub fn disconnect(
    repo: &mut GameRepo,
    broadcast_service: &GameBroadcastService,
    player_type: &PlayerType,
) -> (r: AppResult<Option<GameMessage>>)
    ensures
        store_wf(old(repo)@) ==> store_wf(final(repo)@),
        match player_type.player_id() {
            None => r matches Ok(None) && final(repo)@ == old(repo)@,
            Some(pid) => match r {
                Ok(m) => {
                    &&& any(old(repo)@, holds_player(pid))
                    &&& final(repo)@ == edit_player(
                        old(repo)@,
                        pid,
                        |p: Player| Player { active: false, ..p },
                    )
                    &&& any(final(repo)@, game_id_is(broadcast_service.game_id))
                    &&& m matches Some(GameMessage::StateChange { state }) && state_fits(
                        state,
                        game_of(final(repo)@, broadcast_service.game_id),
                    )
                },
                Err(e) => {
                    &&& e is NotFoundError
                    &&& {
                        ||| !any(old(repo)@, holds_player(pid))
                        ||| !any(final(repo)@, game_id_is(broadcast_service.game_id))
                    }
                },
            },
        },
{
    match player_type.id() {
        None => Ok(None),
        Some(pid) => {
            repo.mark_player_inactive(&pid)?;
            let m = broadcast_service.broadcast_game_state(repo)?;
            Ok(Some(m))
        },
    }
}

/// The life of one connection.
#[derive(Clone, Copy, Debug, PartialEq, Eq, Structural)]
pub enum Phase {
    /// Resolving the connection's role.
    Negotiating,
    /// Forwarding published messages and applying inbound actions.
    Active,
    /// One of the two units stopped; the other is being cancelled.
    Closing,
    /// Both units stopped and the departure was recorded.
    Closed,
}

/// What moves a connection along.
#[derive(Clone, Copy, Debug, PartialEq, Eq, Structural)]
pub enum ConnectionEvent {
    /// The role was resolved and the join announced.
    Joined,
    /// The outbound or the inbound unit stopped.
    UnitStopped,
    /// Both units stopped and the departure was recorded.
    CleanedUp,
    /// Negotiation failed, or the transport went away.
    Aborted,
}

impl Phase {
    pub open spec fn rank(self) -> int {
        match self {
            Phase::Negotiating => 0,
            Phase::Active => 1,
            Phase::Closing => 2,
            Phase::Closed => 3,
        }
    }
}

/// The next phase of a connection. A unit that stops ends the other one
/// too, so a half-open connection never stays active; events that do not
/// apply to a phase leave it as it is.
pub fn next_phase(phase: Phase, event: ConnectionEvent) -> (r: Phase)
    ensures
        r.rank() >= phase.rank(),
        phase == Phase::Negotiating && event == ConnectionEvent::Joined ==> r == Phase::Active,
        phase == Phase::Negotiating && event == ConnectionEvent::Aborted ==> r == Phase::Closed,
        phase == Phase::Active && (event == ConnectionEvent::UnitStopped || event
            == ConnectionEvent::Aborted) ==> r == Phase::Closing,
        phase == Phase::Closing && event == ConnectionEvent::CleanedUp ==> r == Phase::Closed,
        !(phase == Phase::Negotiating && (event == ConnectionEvent::Joined || event
            == ConnectionEvent::Aborted)) && !(phase == Phase::Active && (event
            == ConnectionEvent::UnitStopped || event == ConnectionEvent::Aborted)) && !(phase
            == Phase::Closing && event == ConnectionEvent::CleanedUp) ==> r == phase,
{
    match (phase, event) {
        (Phase::Negotiating, ConnectionEvent::Joined) => Phase::Active,
        (Phase::Negotiating, ConnectionEvent::Aborted) => Phase::Closed,
        (Phase::Active, ConnectionEvent::UnitStopped) => Phase::Closing,
        (Phase::Active, ConnectionEvent::Aborted) => Phase::Closing,
        (Phase::Closing, ConnectionEvent::CleanedUp) => Phase::Closed,
        _ => phase,
    }
}

/// What a connection sends once its role is known: `JoinSuccess` to its own
/// client, then, for everyone, a `NewPlayer` notice and a fresh snapshot.
pub fn join_messages(repo: &GameRepo, broadcast_service: &GameBroadcastService, player_type: &PlayerType)
    -> (r: AppResult<(GameMessage, GameMessage, GameMessage)>)
    ensures
        match r {
            Ok((direct, notice, snapshot)) => {
                &&& direct == (GameMessage::JoinSuccess { player_type: *player_type })
                &&& notice == (GameMessage::NewPlayer { player_type: *player_type })
                &&& any(repo@, game_id_is(broadcast_service.game_id))
                &&& snapshot matches GameMessage::StateChange { state } && state_fits(
                    state,
                    game_of(repo@, broadcast_service.game_id),
                )
            },
            Err(e) => e is NotFoundError && !any(repo@, game_id_is(broadcast_service.game_id)),
        },
{
    let direct = GameMessage::JoinSuccess { player_type: player_type.duplicate() };
    let notice = broadcast_service.broadcast_new_player(player_type);
    let snapshot = broadcast_service.broadcast_game_state(repo)?;
    Ok((direct, notice, snapshot))
}


/// Two claims of one name in one game, in the order in which the store takes
/// them: where the first joins, the second is told that the name is taken,
/// changes nothing, and the game holds exactly one player of that name.
pub proof fn lemma_name_claimed_once(
    old: Seq<GameView>,
    mid: Seq<GameView>,
    new: Seq<GameView>,
    s0: Seq<(Seq<char>, Seq<char>, u128)>,
    s1: Seq<(Seq<char>, Seq<char>, u128)>,
    s2: Seq<(Seq<char>, Seq<char>, u128)>,
    game_id: u128,
    first_session: Seq<char>,
    second_session: Seq<char>,
    name: Seq<char>,
    t: PlayerType,
    r: AppResult<ClaimStep>,
)
    requires
        join_post(old, mid, s0, s1, game_id, first_session, name, Ok(ClaimStep::Joined(t))),
        join_post(mid, new, s1, s2, game_id, second_session, name, r),
    ensures
        r matches Ok(ClaimStep::NameTaken),
        new == mid,
        count_named(game_of(new, game_id).players, name) == 1,
{
    lemma_exists_first(old, game_id_is(game_id));
    let gi = first(old, game_id_is(game_id));
    assert(is_first(mid, game_id_is(game_id), gi));
    lemma_first_is(mid, game_id_is(game_id), gi);
    let ps = mid[gi].players;
    let n = ps.len() - 1;
    assert(player_named(name)(ps[n]));
    assert(any(ps, player_named(name)));
    lemma_count_none(old[gi].players, name);
    assert(ps.drop_last() == old[gi].players);
}

/// The reserved name never joins a game.
pub proof fn lemma_reserved_name_refused(
    old: Seq<GameView>,
    new: Seq<GameView>,
    olds: Seq<(Seq<char>, Seq<char>, u128)>,
    news: Seq<(Seq<char>, Seq<char>, u128)>,
    game_id: u128,
    sid: Seq<char>,
    r: AppResult<ClaimStep>,
)
    requires
        join_post(old, new, olds, news, game_id, sid, reserved_name(), r),
    ensures
        !(r matches Ok(ClaimStep::Joined(_))),
        new == old,
{
}

} // verus!
