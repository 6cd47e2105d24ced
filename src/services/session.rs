use vstd::prelude::*;

use crate::ids::{id_text, uuid_text_of};

verus! {

/// The key under which a session keeps its player in a game.
pub open spec fn display_name_key(game_id: u128) -> Seq<char> {
    "game-"@ + uuid_text_of(game_id) + "-username"@
}

/// The value that the writes `es` leave under a session and a key: the last
/// one written, if any.
pub open spec fn lookup(es: Seq<(Seq<char>, Seq<char>, u128)>, id: Seq<char>, key: Seq<char>) -> Option<
    u128,
>
    decreases es.len(),
{
    if es.len() == 0 {
        None
    } else if es.last().0 == id && es.last().1 == key {
        Some(es.last().2)
    } else {
        lookup(es.drop_last(), id, key)
    }
}

struct SessionEntry {
    session_id: String,
    key: String,
    value: u128,
}

/// Values kept per connection session, by key: what lets a reconnecting
/// client find its player again.
pub struct SessionManager {
    entries: Vec<SessionEntry>,
}

impl View for SessionManager {
    type V = Seq<(Seq<char>, Seq<char>, u128)>;

    closed spec fn view(&self) -> Seq<(Seq<char>, Seq<char>, u128)> {
        self.entries@.map_values(|e: SessionEntry| (e.session_id@, e.key@, e.value))
    }
}

impl SessionManager {
    pub fn new() -> (r: SessionManager)
        ensures
            r@ == Seq::<(Seq<char>, Seq<char>, u128)>::empty(),
    {
        let r = SessionManager { entries: Vec::new() };
        assert(r@ =~= Seq::<(Seq<char>, Seq<char>, u128)>::empty());
        r
    }

    /// The value last set under this session and key.
    pub fn get(&self, id: &str, key: &String) -> (r: Option<u128>)
        ensures
            r == lookup(self@, id@, key@),
    {
        let sid = id.to_owned();
        let mut i: usize = self.entries.len();
        proof {
            assert(self@.subrange(0, i as int) =~= self@);
        }
        while i > 0
            invariant
                i <= self.entries.len(),
                sid@ == id@,
                lookup(self@, id@, key@) == lookup(self@.subrange(0, i as int), id@, key@),
            decreases i,
        {
            proof {
                assert(self@.subrange(0, i as int).drop_last() =~= self@.subrange(0, i - 1));
            }
            let e = &self.entries[i - 1];
            if e.session_id == sid && e.key == *key {
                return Some(e.value);
            }
            i -= 1;
        }
        proof {
            assert(self@.subrange(0, 0) =~= Seq::<(Seq<char>, Seq<char>, u128)>::empty());
        }
        None
    }

    /// Sets the value under this session and key.
    pub fn set(&mut self, id: &str, key: String, value: u128)
        ensures
            final(self)@ == old(self)@.push((id@, key@, value)),
    {
        let e = SessionEntry { session_id: id.to_owned(), key, value };
        self.entries.push(e);
        assert(self@ =~= old(self)@.push((id@, e.key@, value)));
    }

    /// Remembers the player that this session plays in the game.
    pub fn set_game_display_name(&mut self, id: &str, game_id: &u128, player_id: &u128)
        ensures
            final(self)@ == old(self)@.push((id@, display_name_key(*game_id), *player_id)),
    {
        let key = game_key(*game_id);
        self.set(id, key, *player_id)
    }

    /// The player that this session plays in the game, if it joined.
    pub fn get_game_display_name(&self, id: &str, game_id: &u128) -> (r: Option<u128>)
        ensures
            r == lookup(self@, id@, display_name_key(*game_id)),
    {
        let key = game_key(*game_id);
        self.get(id, &key)
    }
}

fn game_key(game_id: u128) -> (r: String)
    ensures
        r@ == display_name_key(game_id),
{
    let mut key = "game-".to_owned();
    let text = id_text(game_id);
    key.append(text.as_str());
    key.append("-username");
    key
}

/// What a session set under a key is what it reads back under that key.
pub proof fn lemma_set_then_get(es: Seq<(Seq<char>, Seq<char>, u128)>, id: Seq<char>, key: Seq<char>, v: u128)
    ensures
        lookup(es.push((id, key, v)), id, key) == Some(v),
{
    assert(es.push((id, key, v)).last() == (id, key, v));
}

} // verus!
