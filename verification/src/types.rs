//! The data that a room receives and keeps: who speaks, who plays, the game's
//! setup, the word list, and the running totals of each player.

use crate::text::strs;
use vstd::prelude::*;

verus! {

/// How a chatter is signed in: the id by which the role clauses know them.
#[derive(Debug, Clone)]
pub struct Auth {
    pub id: String,
    pub service: String,
    pub username: String,
}

impl Default for Auth {
    /// The sign-in of somebody who is not signed in: every field empty.
    fn default() -> (auth: Auth)
        ensures
            auth.id@ == Seq::<char>::empty(),
            auth.service@ == Seq::<char>::empty(),
            auth.username@ == Seq::<char>::empty(),
    {
        Auth { id: String::new(), service: String::new(), username: String::new() }
    }
}

/// The author of a chat line.
#[derive(Debug, Clone)]
pub struct Chatter {
    pub nickname: String,
    pub auth: Option<Auth>,
    pub peer_id: u64,
    pub picture: String,
    pub roles: Vec<String>,
}

/// The word list of a room: the words to play from, in their current order,
/// and the notable words among them.
#[derive(Debug, Clone)]
pub struct Dictionary {
    pub dictionary: Vec<String>,
    pub sn: Vec<String>,
}

/// What a `Dictionary` holds, as mathematics.
#[verifier::ext_equal]
pub struct DictionaryView {
    pub words: Seq<Seq<char>>,
    pub notable: Seq<Seq<char>>,
}

impl View for Dictionary {
    type V = DictionaryView;

    open spec fn view(&self) -> DictionaryView {
        DictionaryView { words: strs(self.dictionary@), notable: strs(self.sn@) }
    }
}

/// A room as the lobby lists it.
#[derive(Debug, Clone)]
pub struct RoomEntry {
    pub chat_mode: String,
    pub game_id: String,
    pub is_public: bool,
    pub name: String,
    pub player_count: u64,
    pub room_code: String,
}

/// What the server answers when the assistant has joined a room.
#[derive(Debug, Clone)]
pub struct RoomDetails {
    pub room_entry: RoomEntry,
    pub self_peer_id: u64,
    pub self_roles: Vec<String>,
}

/// Somebody who has just entered the chat.
#[derive(Debug, Clone)]
pub struct NewChatter {
    pub auth: Auth,
    pub nickname: String,
    pub peer_id: u64,
}

/// The state of a game as the server sends it on connection.
#[derive(Debug, Clone)]
pub struct Setup {
    pub constants: Constants,
    pub leader_peer_id: u64,
    pub milestone: Milestone,
}

/// The limits of a game.
#[derive(Debug, Clone)]
pub struct Constants {
    pub max_bomb_duration: u64,
    pub max_players: u64,
    pub max_word_length: u64,
    pub min_bomb_duration: u64,
    pub min_players: u64,
    pub start_timer_duration: u64,
    pub submit_rate_limit: SubmitRateLimit,
}

/// How many words a player may submit in an interval.
#[derive(Debug, Clone)]
pub struct SubmitRateLimit {
    pub interval: u64,
    pub max: u64,
}

/// The phase that a game is in.
#[derive(Debug, Clone)]
pub struct Milestone {
    pub name: String,
    pub rules_locked: bool,
}

/// The running totals of one player.
#[derive(Debug, Clone)]
pub struct PlayerStats {
    pub nickname: String,
    pub roles: Vec<String>,
    pub words: u64,
    pub subs: u64,
    pub longs: u64,
    pub hyphens: u64,
    pub multi: u64,
    pub lives: u64,
    pub streak: u64,
}

/// What a `PlayerStats` holds, as mathematics.
#[verifier::ext_equal]
pub struct PlayerStatsView {
    pub nickname: Seq<char>,
    pub roles: Seq<Seq<char>>,
    pub words: u64,
    pub subs: u64,
    pub longs: u64,
    pub hyphens: u64,
    pub multi: u64,
    pub lives: u64,
    pub streak: u64,
}

impl View for PlayerStats {
    type V = PlayerStatsView;

    open spec fn view(&self) -> PlayerStatsView {
        PlayerStatsView {
            nickname: self.nickname@,
            roles: strs(self.roles@),
            words: self.words,
            subs: self.subs,
            longs: self.longs,
            hyphens: self.hyphens,
            multi: self.multi,
            lives: self.lives,
            streak: self.streak,
        }
    }
}

/// The totals of a player who has not played yet.
pub open spec fn fresh_stats(nickname: Seq<char>, roles: Seq<Seq<char>>) -> PlayerStatsView {
    PlayerStatsView {
        nickname,
        roles,
        words: 0,
        subs: 0,
        longs: 0,
        hyphens: 0,
        multi: 0,
        lives: 0,
        streak: 0,
    }
}

/// A copy of `v`, string by string.
pub fn clone_strings(v: &Vec<String>) -> (out: Vec<String>)
    ensures
        out@ == v@,
{
    let mut out: Vec<String> = Vec::new();
    let mut i: usize = 0;
    while i < v.len()
        invariant
            i <= v.len(),
            out@ == v@.take(i as int),
        decreases v.len() - i,
    {
        out.push(v[i].clone());
        i = i + 1;
    }
    out
}

impl PlayerStats {
    /// A player who has just joined: every counter is zero.
    pub fn new(nickname: String, roles: Vec<String>) -> (stats: PlayerStats)
        ensures
            stats@ == fresh_stats(nickname@, strs(roles@)),
    {
        PlayerStats {
            nickname,
            roles,
            words: 0,
            subs: 0,
            longs: 0,
            hyphens: 0,
            multi: 0,
            lives: 0,
            streak: 0,
        }
    }

    /// A copy of these totals as they stand now.
    pub fn snapshot(&self) -> (copy: PlayerStats)
        ensures
            copy@ == self@,
    {
        PlayerStats {
            nickname: self.nickname.clone(),
            roles: clone_strings(&self.roles),
            words: self.words,
            subs: self.subs,
            longs: self.longs,
            hyphens: self.hyphens,
            multi: self.multi,
            lives: self.lives,
            streak: self.streak,
        }
    }
}

} // verus!
