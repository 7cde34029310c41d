//! The state of one room and the requests that read or change it. A room's
//! requests are handled one at a time, each by one call of `handle_message`:
//! the call takes the state from before the request to after it and says what
//! is to be answered or sent.

use crate::dictionary::{after_search, chosen_word, playable, search_reply};
use crate::score::{announcement, bump, bumped, perks_of, score, scored};
use crate::text::strs;
use crate::types::{fresh_stats, Dictionary, DictionaryView, PlayerStats, PlayerStatsView};
use crate::utils::{shuffle, shuffled, valid_picks};
use std::collections::HashMap;
use vstd::prelude::*;
use vstd::std_specs::hash::*;

verus! {

/// The state of one room. `S` is the handle of an outbound connection; the
/// room keeps the two handles that it is given and never looks inside them.
pub struct Bot<S> {
    dictionary: Dictionary,
    self_peer_id: u64,
    room_creator: String,
    used_words: Vec<String>,
    player_word: String,
    syllable: String,
    game_socket: Option<S>,
    players: HashMap<u64, PlayerStats>,
    room_socket: Option<S>,
}

/// What a room holds, as mathematics.
#[verifier::ext_equal]
pub struct BotView<S> {
    /// The word list, in its current order.
    pub dictionary: DictionaryView,
    /// The assistant's own peer id in the room.
    pub self_peer_id: u64,
    /// The id of whoever created the room.
    pub room_creator: Seq<char>,
    /// The words played so far, in the order they were played.
    pub used: Seq<Seq<char>>,
    /// The word that the player at turn is typing.
    pub player_word: Seq<char>,
    /// The syllable that the next word must hold.
    pub syllable: Seq<char>,
    /// The connection to the game, once there is one.
    pub game_socket: Option<S>,
    /// The totals of each player, by peer id.
    pub players: Map<u64, PlayerStatsView>,
    /// The connection to the room's chat, once there is one.
    pub room_socket: Option<S>,
}

/// A request to a room.
pub enum BotMessage<S> {
    GetWords { query: String },
    GetWord { syllable: String },
    SetPeerId { peer_id: u64 },
    GetPeerId,
    SetRoomCreator { creator: String },
    GetRoomCreator,
    AddWord { word: String },
    IsUsedWord { word: String },
    SetPlayerWord { word: String },
    GetPlayerWord,
    SetSyllable { syllable: String },
    GetSyllable,
    RemoveWord { word: String },
    SetGameSocket { socket: S },
    StartRoundNow,
    IsConsiderableWord { nickname: String, peer_id: u64, word: String },
    AddPlayer { nickname: String, peer_id: u64, roles: Vec<String> },
    GetPlayer { peer_id: u64 },
    SetRoomSocket { socket: S },
    SetChat { message: String },
    UpdateLives { peer_id: u64 },
}

/// What a room answers to a request, or asks to have sent.
#[derive(Debug, Clone)]
pub enum BotReply {
    /// The request is done; there is nothing to answer and nothing to send.
    Done,
    /// What the request refers to (a word, a player, a connection) is not there.
    NotFound,
    /// The text asked for.
    Text(String),
    /// The peer id asked for.
    PeerId(u64),
    /// The yes or no asked for.
    Flag(bool),
    /// The totals of the player asked for.
    Player(PlayerStats),
    /// The player's lives after the one gained.
    Lives(u64),
    /// To be sent as a chat line on the room's connection.
    Chat(String),
    /// The order to start the round, to be sent on the game's connection.
    StartRound,
}

/// The word that the room plays on `syllable`: the first word of the list
/// that holds the syllable and was not played, or none.
pub open spec fn word_to_play<S>(room: BotView<S>, syllable: Seq<char>) -> Option<Seq<char>> {
    chosen_word(room.dictionary.words, syllable, room.used)
}

/// A search for `query` takes the room from `pre` to `post` and answers
/// `line`: the answer is the search's reply on the list as it was, the list is
/// shuffled if the query compiles and matches a word, and nothing else
/// changes.
pub open spec fn searched<S>(
    pre: BotView<S>,
    query: Seq<char>,
    post: BotView<S>,
    line: Seq<char>,
) -> bool {
    &&& post == BotView { dictionary: post.dictionary, ..pre }
    &&& after_search(pre.dictionary, query, post.dictionary)
    &&& line == search_reply(pre.dictionary.words, query)
}

/// A player joined: their totals start at zero and replace what the room held
/// under that peer id. The assistant itself is no player, so its own peer id
/// changes nothing.
pub open spec fn with_player<S>(
    pre: BotView<S>,
    nickname: Seq<char>,
    peer_id: u64,
    roles: Seq<Seq<char>>,
) -> BotView<S> {
    if peer_id == pre.self_peer_id {
        pre
    } else {
        BotView { players: pre.players.insert(peer_id, fresh_stats(nickname, roles)), ..pre }
    }
}

/// A player gained a life. A peer id that the room does not know changes
/// nothing.
pub open spec fn with_life<S>(pre: BotView<S>, peer_id: u64) -> BotView<S> {
    if pre.players.contains_key(peer_id) {
        let stats = pre.players[peer_id];
        BotView {
            players: pre.players.insert(
                peer_id,
                PlayerStatsView { lives: bump(stats.lives), ..stats },
            ),
            ..pre
        }
    } else {
        pre
    }
}

/// Whether a word can be scored for `peer_id`: the player is known and the
/// room's chat is connected.
pub open spec fn can_score<S>(pre: BotView<S>, peer_id: u64) -> bool {
    pre.players.contains_key(peer_id) && pre.room_socket is Some
}

/// The room after `word` was scored for `peer_id`. Without the player or
/// without the chat connection nothing changes.
pub open spec fn with_score<S>(pre: BotView<S>, peer_id: u64, word: Seq<char>) -> BotView<S> {
    if can_score(pre, peer_id) {
        BotView {
            players: pre.players.insert(
                peer_id,
                scored(pre.players[peer_id], perks_of(word, pre.dictionary)),
            ),
            ..pre
        }
    } else {
        pre
    }
}

/// What the room says when `word` was scored for `peer_id`: the announcement
/// if the word earned a bonus, nothing if it did not.
pub open spec fn score_reply<S>(
    pre: BotView<S>,
    nickname: Seq<char>,
    peer_id: u64,
    word: Seq<char>,
    reply: BotReply,
) -> bool {
    if !can_score(pre, peer_id) {
        reply is NotFound
    } else if perks_of(word, pre.dictionary).any() {
        reply matches BotReply::Chat(line) && line@ == announcement(
            nickname,
            with_score(pre, peer_id, word).players[peer_id],
            perks_of(word, pre.dictionary),
            word,
        )
    } else {
        reply is Done
    }
}

/// A room that has just been opened on the word list `dictionary`: the list is
/// shuffled, and everything else is empty.
pub open spec fn opened<S>(dictionary: DictionaryView, room: BotView<S>) -> bool {
    &&& room.dictionary.notable == dictionary.notable
    &&& exists|picks: Seq<usize>|
        valid_picks(picks, dictionary.words.len()) && room.dictionary.words == #[trigger] shuffled(
            dictionary.words,
            picks,
        )
    &&& room.self_peer_id == 0
    &&& room.room_creator == Seq::<char>::empty()
    &&& room.used == Seq::<Seq<char>>::empty()
    &&& room.player_word == Seq::<char>::empty()
    &&& room.syllable == Seq::<char>::empty()
    &&& room.game_socket is None
    &&& room.players == Map::<u64, PlayerStatsView>::empty()
    &&& room.room_socket is None
}

/// The request `msg` takes the room from `pre` to `post` and is answered by
/// `reply`.
pub open spec fn handled<S>(
    pre: BotView<S>,
    msg: BotMessage<S>,
    post: BotView<S>,
    reply: BotReply,
) -> bool {
    match msg {
        BotMessage::GetWords { query } => reply matches BotReply::Text(line) && searched(
            pre,
            query@,
            post,
            line@,
        ),
        BotMessage::GetWord { syllable } => post == pre && match word_to_play(pre, syllable@) {
            Some(word) => reply matches BotReply::Text(text) && text@ == word,
            None => reply is NotFound,
        },
        BotMessage::SetPeerId { peer_id } => reply is Done && post == BotView {
            self_peer_id: peer_id,
            ..pre
        },
        BotMessage::GetPeerId => post == pre && reply == BotReply::PeerId(pre.self_peer_id),
        BotMessage::SetRoomCreator { creator } => reply is Done && post == BotView {
            room_creator: creator@,
            ..pre
        },
        BotMessage::GetRoomCreator => post == pre && (reply matches BotReply::Text(creator)
            && creator@ == pre.room_creator),
        BotMessage::AddWord { word } => reply is Done && post == BotView {
            used: pre.used.push(word@),
            ..pre
        },
        BotMessage::IsUsedWord { word } => post == pre && reply == BotReply::Flag(
            pre.used.contains(word@),
        ),
        BotMessage::SetPlayerWord { word } => reply is Done && post == BotView {
            player_word: word@,
            ..pre
        },
        BotMessage::GetPlayerWord => post == pre && (reply matches BotReply::Text(word) && word@
            == pre.player_word),
        BotMessage::SetSyllable { syllable } => reply is Done && post == BotView {
            syllable: syllable@,
            ..pre
        },
        BotMessage::GetSyllable => post == pre && (reply matches BotReply::Text(syllable)
            && syllable@ == pre.syllable),
        BotMessage::RemoveWord { word } => reply is Done && post == BotView {
            dictionary: DictionaryView {
                words: pre.dictionary.words.remove_value(word@),
                ..pre.dictionary
            },
            ..pre
        },
        BotMessage::SetGameSocket { socket } => reply is Done && post == BotView {
            game_socket: Some(socket),
            ..pre
        },
        BotMessage::StartRoundNow => post == pre && if pre.game_socket is Some {
            reply is StartRound
        } else {
            reply is NotFound
        },
        BotMessage::IsConsiderableWord { nickname, peer_id, word } => post == with_score(
            pre,
            peer_id,
            word@,
        ) && score_reply(pre, nickname@, peer_id, word@, reply),
        BotMessage::AddPlayer { nickname, peer_id, roles } => reply is Done && post == with_player(
            pre,
            nickname@,
            peer_id,
            strs(roles@),
        ),
        BotMessage::GetPlayer { peer_id } => post == pre && if pre.players.contains_key(peer_id) {
            reply matches BotReply::Player(stats) && stats@ == pre.players[peer_id]
        } else {
            reply is NotFound
        },
        BotMessage::SetRoomSocket { socket } => reply is Done && post == BotView {
            room_socket: Some(socket),
            ..pre
        },
        BotMessage::SetChat { message } => post == pre && if pre.room_socket is Some {
            reply matches BotReply::Chat(line) && line@ == message@
        } else {
            reply is NotFound
        },
        BotMessage::UpdateLives { peer_id } => post == with_life(pre, peer_id) && if pre.players
            .contains_key(peer_id) {
            reply == BotReply::Lives(bump(pre.players[peer_id].lives))
        } else {
            reply is NotFound
        },
    }
}

/// The room after `n` lives gained by `peer_id`, one after another.
pub open spec fn with_lives<S>(pre: BotView<S>, peer_id: u64, n: nat) -> BotView<S>
    decreases n,
{
    if n == 0 {
        pre
    } else {
        with_life(with_lives(pre, peer_id, (n - 1) as nat), peer_id)
    }
}

/// No life is lost: `n` requests for a life of one player, handled one at a
/// time, leave the player with exactly `n` lives more, as long as the counter
/// can hold them. Nothing else in the room changes.
pub proof fn lemma_lives_add_up<S>(pre: BotView<S>, peer_id: u64, n: nat)
    requires
        pre.players.contains_key(peer_id),
        pre.players[peer_id].lives + n <= u64::MAX,
    ensures
        with_lives(pre, peer_id, n) == (BotView {
            players: pre.players.insert(
                peer_id,
                PlayerStatsView {
                    lives: (pre.players[peer_id].lives + n) as u64,
                    ..pre.players[peer_id]
                },
            ),
            ..pre
        }),
    decreases n,
{
    if n > 0 {
        lemma_lives_add_up(pre, peer_id, (n - 1) as nat);
        let before = with_lives(pre, peer_id, (n - 1) as nat);
        assert(with_life(before, peer_id).players =~= pre.players.insert(
            peer_id,
            PlayerStatsView {
                lives: (pre.players[peer_id].lives + n) as u64,
                ..pre.players[peer_id]
            },
        ));
    }
}

/// The words played only grow: whatever the request, every word that was
/// marked as played before it is marked as played after it.
pub proof fn lemma_used_only_grows<S>(
    pre: BotView<S>,
    msg: BotMessage<S>,
    post: BotView<S>,
    reply: BotReply,
    word: Seq<char>,
)
    requires
        handled(pre, msg, post, reply),
        pre.used.contains(word),
    ensures
        post.used.contains(word),
        pre.used.len() <= post.used.len(),
{
    match msg {
        BotMessage::AddWord { word: added } => {
            let i = choose|i: int| 0 <= i < pre.used.len() && pre.used[i] == word;
            assert(pre.used.push(added@)[i] == word);
        },
        _ => {},
    }
}

/// A word once marked as played is never played again: the word that the
/// room plays on a syllable holds the syllable, is in the word list, and is
/// not among the words played. In particular, where the only word with the
/// syllable has been played, the room has no word to play.
pub proof fn lemma_never_plays_used<S>(room: BotView<S>, syllable: Seq<char>)
    ensures
        match word_to_play(room, syllable) {
            Some(word) => room.dictionary.words.contains(word) && crate::text::is_substring(
                syllable,
                word,
            ) && !room.used.contains(word),
            None => forall|i: int|
                0 <= i < room.dictionary.words.len() ==> !playable(
                    #[trigger] room.dictionary.words[i],
                    syllable,
                    room.used,
                ),
        },
{
    crate::dictionary::lemma_chosen_word(room.dictionary.words, syllable, room.used);
}

/// After a word was marked as played, once or more often, it counts as
/// played.
pub proof fn lemma_marked_is_used(used: Seq<Seq<char>>, word: Seq<char>)
    ensures
        used.push(word).contains(word),
        used.push(word).push(word).contains(word),
{
    assert(used.push(word).push(word)[used.len() as int] == word);
}

impl<S> View for Bot<S> {
    type V = BotView<S>;

    closed spec fn view(&self) -> BotView<S> {
        BotView {
            dictionary: self.dictionary@,
            self_peer_id: self.self_peer_id,
            room_creator: self.room_creator@,
            used: strs(self.used_words@),
            player_word: self.player_word@,
            syllable: self.syllable@,
            game_socket: self.game_socket,
            players: self.players@.map_values(|stats: PlayerStats| stats@),
            room_socket: self.room_socket,
        }
    }
}

impl<S> Bot<S> {
    /// Opens a room on the word list `dictionary`, which is shuffled at once.
    pub fn new(dictionary: Dictionary) -> (bot: Bot<S>)
        ensures
            opened(dictionary@, bot@),
    {
        let ghost old_dict = dictionary@;
        let mut dictionary = dictionary;
        let ghost before = dictionary.dictionary@;
        shuffle(&mut dictionary.dictionary);
        let bot = Bot {
            dictionary,
            self_peer_id: 0,
            room_creator: String::new(),
            used_words: Vec::new(),
            player_word: String::new(),
            syllable: String::new(),
            game_socket: None,
            players: HashMap::new(),
            room_socket: None,
        };
        proof {
            let picks = choose|picks: Seq<usize>|
                valid_picks(picks, before.len()) && bot.dictionary.dictionary@
                    == #[trigger] shuffled(before, picks);
            crate::utils::lemma_shuffled_from_strs(before, picks, 0);
            assert(bot@.dictionary.words == shuffled(old_dict.words, picks));
            assert(bot@.players =~= Map::<u64, PlayerStatsView>::empty());
            assert(bot@.used =~= Seq::<Seq<char>>::empty());
        }
        bot
    }

    /// The word list, in its current order.
    pub fn dictionary(&self) -> (dictionary: &Dictionary)
        ensures
            dictionary@ == self@.dictionary,
    {
        &self.dictionary
    }

    /// The connection to the game, if the room has been given one.
    pub fn game_socket(&self) -> (socket: Option<&S>)
        ensures
            socket is Some == self@.game_socket is Some,
            socket matches Some(s) ==> *s == self@.game_socket->0,
    {
        self.game_socket.as_ref()
    }

    /// The connection to the room's chat, if the room has been given one.
    pub fn room_socket(&self) -> (socket: Option<&S>)
        ensures
            socket is Some == self@.room_socket is Some,
            socket matches Some(s) ==> *s == self@.room_socket->0,
    {
        self.room_socket.as_ref()
    }

    /// Searches the word list for `query` and reports the result as a chat
    /// line.
    pub fn get_words(&mut self, query: &str) -> (line: String)
        ensures
            searched(old(self)@, query@, final(self)@, line@),
    {
        let result = self.dictionary.search(query);
        result.message(query)
    }

    /// Sets the assistant's own peer id.
    pub fn set_peer_id(&mut self, peer_id: u64)
        ensures
            final(self)@ == (BotView { self_peer_id: peer_id, ..old(self)@ }),
    {
        self.self_peer_id = peer_id;
    }

    /// The assistant's own peer id.
    pub fn get_peer_id(&self) -> (peer_id: u64)
        ensures
            peer_id == self@.self_peer_id,
    {
        self.self_peer_id
    }

    /// Sets the id of whoever created the room.
    pub fn set_room_creator(&mut self, creator: String)
        ensures
            final(self)@ == (BotView { room_creator: creator@, ..old(self)@ }),
    {
        self.room_creator = creator;
    }

    /// The id of whoever created the room.
    pub fn get_room_creator(&self) -> (creator: String)
        ensures
            creator@ == self@.room_creator,
    {
        self.room_creator.clone()
    }

    /// The word to play on `syllable`: the first word of the list, in its
    /// current order, that holds the syllable and has not been played. `None`
    /// if there is no such word.
    pub fn get_single_word(&self, syllable: &str) -> (word: Option<String>)
        ensures
            word_to_play(self@, syllable@) == match word {
                Some(w) => Some(w@),
                None => None,
            },
    {
        self.dictionary.pick(syllable, &self.used_words)
    }

    /// Marks `word` as played.
    pub fn add_used_word(&mut self, word: String)
        ensures
            final(self)@ == (BotView { used: old(self)@.used.push(word@), ..old(self)@ }),
    {
        self.used_words.push(word);
    }

    /// Whether `word` has been played.
    pub fn is_used_word(&self, word: &str) -> (used: bool)
        ensures
            used == self@.used.contains(word@),
    {
        crate::dictionary::has_word(&self.used_words, word)
    }

    /// Sets the word that the player at turn is typing.
    pub fn set_player_word(&mut self, word: String)
        ensures
            final(self)@ == (BotView { player_word: word@, ..old(self)@ }),
    {
        self.player_word = word;
    }

    /// The word that the player at turn is typing.
    pub fn get_player_word(&self) -> (word: String)
        ensures
            word@ == self@.player_word,
    {
        self.player_word.clone()
    }

    /// Sets the syllable that the next word must hold.
    pub fn set_syllable(&mut self, syllable: String)
        ensures
            final(self)@ == (BotView { syllable: syllable@, ..old(self)@ }),
    {
        self.syllable = syllable;
    }

    /// The syllable that the next word must hold.
    pub fn get_syllable(&self) -> (syllable: String)
        ensures
            syllable@ == self@.syllable,
    {
        self.syllable.clone()
    }

    /// Removes the first entry of the word list that equals `word`; a word
    /// that is not in the list changes nothing.
    pub fn remove_word(&mut self, word: &str)
        ensures
            final(self)@ == (BotView {
                dictionary: DictionaryView {
                    words: old(self)@.dictionary.words.remove_value(word@),
                    ..old(self)@.dictionary
                },
                ..old(self)@
            }),
    {
        self.dictionary.remove(word);
    }

    /// Keeps `socket` as the connection to the game.
    pub fn set_game_socket(&mut self, socket: S)
        ensures
            final(self)@ == (BotView { game_socket: Some(socket), ..old(self)@ }),
    {
        self.game_socket = Some(socket);
    }

    /// Keeps `socket` as the connection to the room's chat.
    pub fn set_room_socket(&mut self, socket: S)
        ensures
            final(self)@ == (BotView { room_socket: Some(socket), ..old(self)@ }),
    {
        self.room_socket = Some(socket);
    }

    /// Whether the order to start the round can be sent: it can once the game
    /// is connected.
    pub fn start_round_now(&self) -> (reply: BotReply)
        ensures
            if self@.game_socket is Some {
                reply is StartRound
            } else {
                reply is NotFound
            },
    {
        if self.game_socket.is_some() {
            BotReply::StartRound
        } else {
            BotReply::NotFound
        }
    }

    /// The chat line `message`, to be sent once the room's chat is connected.
    pub fn set_chat(&self, message: String) -> (reply: BotReply)
        ensures
            if self@.room_socket is Some {
                reply matches BotReply::Chat(line) && line@ == message@
            } else {
                reply is NotFound
            },
    {
        if self.room_socket.is_some() {
            BotReply::Chat(message)
        } else {
            BotReply::NotFound
        }
    }

    /// Adds the player `peer_id` with totals of zero, in place of whatever the
    /// room held under that peer id. The assistant's own peer id is skipped.
    pub fn add_player(&mut self, nickname: String, peer_id: u64, roles: Vec<String>)
        ensures
            final(self)@ == with_player(old(self)@, nickname@, peer_id, strs(roles@)),
    {
        broadcast use group_hash_axioms;

        if peer_id != self.self_peer_id {
            let _ = self.players.insert(peer_id, PlayerStats::new(nickname, roles));
        }
    }

    /// The totals of the player `peer_id` as they stand now; `None` for a
    /// peer id that the room does not know.
    pub fn get_player(&self, peer_id: u64) -> (player: Option<PlayerStats>)
        ensures
            match player {
                Some(stats) => self@.players.contains_key(peer_id) && stats@
                    == self@.players[peer_id],
                None => !self@.players.contains_key(peer_id),
            },
    {
        broadcast use group_hash_axioms;

        match self.players.get(&peer_id) {
            Some(stats) => Some(stats.snapshot()),
            None => None,
        }
    }

    /// Gives the player `peer_id` one more life and returns how many they have
    /// now; `None`, and no change, for a peer id that the room does not know.
    pub fn increment_lives(&mut self, peer_id: u64) -> (lives: Option<u64>)
        ensures
            final(self)@ == with_life(old(self)@, peer_id),
            match lives {
                Some(n) => old(self)@.players.contains_key(peer_id) && n == bump(
                    old(self)@.players[peer_id].lives,
                ),
                None => !old(self)@.players.contains_key(peer_id),
            },
    {
        broadcast use group_hash_axioms;

        match self.players.remove(&peer_id) {
            Some(stats) => {
                let mut stats = stats;
                stats.lives = bumped(stats.lives);
                let lives = stats.lives;
                let _ = self.players.insert(peer_id, stats);
                Some(lives)
            },
            None => None,
        }
    }

    /// Scores `word` for the player `peer_id`: their totals move as `scored`
    /// says, and a word that earned a bonus is announced under `nickname`.
    /// Without the player, or without the room's chat connection, nothing
    /// changes and the answer is `NotFound`.
    pub fn is_condierable_word(&mut self, nickname: &str, peer_id: u64, word: &str) -> (reply:
        BotReply)
        ensures
            final(self)@ == with_score(old(self)@, peer_id, word@),
            score_reply(old(self)@, nickname@, peer_id, word@, reply),
    {
        broadcast use group_hash_axioms;

        if self.room_socket.is_none() {
            return BotReply::NotFound;
        }
        match self.players.remove(&peer_id) {
            Some(stats) => {
                let mut stats = stats;
                let line = score(&mut stats, nickname, word, &self.dictionary);
                let _ = self.players.insert(peer_id, stats);
                match line {
                    Some(text) => BotReply::Chat(text),
                    None => BotReply::Done,
                }
            },
            None => BotReply::NotFound,
        }
    }

    /// Handles one request: changes the room as the request asks and says what
    /// is to be answered or sent.
    pub fn handle_message(&mut self, msg: BotMessage<S>) -> (reply: BotReply)
        ensures
            handled(old(self)@, msg, final(self)@, reply),
    {
        match msg {
            BotMessage::GetWords { query } => BotReply::Text(self.get_words(query.as_str())),
            BotMessage::GetWord { syllable } => match self.get_single_word(syllable.as_str()) {
                Some(word) => BotReply::Text(word),
                None => BotReply::NotFound,
            },
            BotMessage::SetPeerId { peer_id } => {
                self.set_peer_id(peer_id);
                BotReply::Done
            },
            BotMessage::GetPeerId => BotReply::PeerId(self.get_peer_id()),
            BotMessage::SetRoomCreator { creator } => {
                self.set_room_creator(creator);
                BotReply::Done
            },
            BotMessage::GetRoomCreator => BotReply::Text(self.get_room_creator()),
            BotMessage::AddWord { word } => {
                self.add_used_word(word);
                BotReply::Done
            },
            BotMessage::IsUsedWord { word } => BotReply::Flag(self.is_used_word(word.as_str())),
            BotMessage::SetPlayerWord { word } => {
                self.set_player_word(word);
                BotReply::Done
            },
            BotMessage::GetPlayerWord => BotReply::Text(self.get_player_word()),
            BotMessage::SetSyllable { syllable } => {
                self.set_syllable(syllable);
                BotReply::Done
            },
            BotMessage::GetSyllable => BotReply::Text(self.get_syllable()),
            BotMessage::RemoveWord { word } => {
                self.remove_word(word.as_str());
                BotReply::Done
            },
            BotMessage::SetGameSocket { socket } => {
                self.set_game_socket(socket);
                BotReply::Done
            },
            BotMessage::StartRoundNow => self.start_round_now(),
            BotMessage::IsConsiderableWord { nickname, peer_id, word } => self.is_condierable_word(
                nickname.as_str(),
                peer_id,
                word.as_str(),
            ),
            BotMessage::AddPlayer { nickname, peer_id, roles } => {
                self.add_player(nickname, peer_id, roles);
                BotReply::Done
            },
            BotMessage::GetPlayer { peer_id } => match self.get_player(peer_id) {
                Some(stats) => BotReply::Player(stats),
                None => BotReply::NotFound,
            },
            BotMessage::SetRoomSocket { socket } => {
                self.set_room_socket(socket);
                BotReply::Done
            },
            BotMessage::SetChat { message } => self.set_chat(message),
            BotMessage::UpdateLives { peer_id } => match self.increment_lives(peer_id) {
                Some(lives) => BotReply::Lives(lives),
                None => BotReply::NotFound,
            },
        }
    }
}

} // verus!
