//! What the assistant does when the game tells it something. Each event of
//! the game changes the room and may ask for messages to be sent back; the
//! functions here decide both, and leave the sending to whoever holds the
//! connections.

use crate::bot::{can_score, with_life, with_score, word_to_play, Bot, BotReply, BotView};
use crate::score::{announcement, bump, perks_of};
use crate::pattern::{sanitize, sanitized};
use crate::text::{decimal, decimal_digits, same};
use crate::types::{PlayerStats, PlayerStatsView};
use vstd::prelude::*;

verus! {

/// A message that the assistant sends to the game or to the room's chat.
#[derive(Debug, Clone)]
pub enum Outbound {
    /// Take a seat in the next round.
    JoinRound,
    /// Play this word.
    SetWord(String),
    /// Say this in the chat.
    Chat(String),
    /// Start the round at once.
    StartRound,
    /// Make this peer a moderator of the room.
    SetUserModerator(u64),
    /// Leave the room.
    Leave,
}

/// What an `Outbound` holds, as mathematics.
pub enum Sent {
    JoinRound,
    SetWord(Seq<char>),
    Chat(Seq<char>),
    StartRound,
    SetUserModerator(u64),
    Leave,
}

impl View for Outbound {
    type V = Sent;

    open spec fn view(&self) -> Sent {
        match self {
            Outbound::JoinRound => Sent::JoinRound,
            Outbound::SetWord(word) => Sent::SetWord(word@),
            Outbound::Chat(line) => Sent::Chat(line@),
            Outbound::StartRound => Sent::StartRound,
            Outbound::SetUserModerator(peer_id) => Sent::SetUserModerator(*peer_id),
            Outbound::Leave => Sent::Leave,
        }
    }
}

/// The messages of a list, as mathematics.
pub open spec fn sent(out: Seq<Outbound>) -> Seq<Sent> {
    Seq::new(out.len(), |i: int| out[i]@)
}

/// What an event could not be handled for.
#[derive(Debug, Clone, Copy, PartialEq, Eq, Structural)]
pub enum HandlerError {
    /// The event names no syllable where the assistant needs one.
    MissingSyllable,
    /// The event names no player.
    MissingPeerId,
    /// The pattern of the characters that no word may hold did not compile.
    BadPattern,
}

/// What handling an event comes to: the messages to send, and the error that
/// ended the handling early, if one did.
#[derive(Debug, Clone)]
pub struct Handled {
    pub outbound: Vec<Outbound>,
    pub error: Option<HandlerError>,
}

/// The name under which a message goes out on a connection. Leaving is no
/// message: the connections are closed.
pub open spec fn event_name(message: Sent) -> Option<Seq<char>> {
    match message {
        Sent::JoinRound => Some("joinRound"@),
        Sent::SetWord(_) => Some("setWord"@),
        Sent::Chat(_) => Some("chat"@),
        Sent::StartRound => Some("startRoundNow"@),
        Sent::SetUserModerator(_) => Some("setUserModerator"@),
        Sent::Leave => None,
    }
}

/// The phase of a game in which seats are taken.
pub open spec fn is_seating(name: Seq<char>) -> bool {
    name == "seating"@
}

/// The reason with which the game refuses a word that it does not know.
pub open spec fn is_unknown_word(reason: Seq<char>) -> bool {
    reason == "notInDictionary"@
}

/// The move of the assistant on `syllable`: the word that the room plays, if
/// it has one.
pub open spec fn play<S>(room: BotView<S>, syllable: Seq<char>) -> Seq<Sent> {
    match word_to_play(room, syllable) {
        Some(word) => seq![Sent::SetWord(word)],
        None => Seq::empty(),
    }
}

/// The chat line `line`, if the room's chat is connected.
pub open spec fn say<S>(room: BotView<S>, line: Seq<char>) -> Seq<Sent> {
    if room.room_socket is Some {
        seq![Sent::Chat(line)]
    } else {
        Seq::empty()
    }
}

/// What is said to a player who has lost their last life.
pub open spec fn farewell(stats: PlayerStatsView) -> Seq<char> {
    "Well played "@ + stats.nickname + "! lives: "@ + decimal_digits(stats.lives as nat)
        + " \u{2014} words: "@ + decimal_digits(stats.words as nat) + " \u{2014} subs: "@
        + decimal_digits(stats.subs as nat) + " \u{2014} longs: "@ + decimal_digits(
        stats.longs as nat,
    ) + " \u{2014} hyphens: "@ + decimal_digits(stats.hyphens as nat) + " \u{2014} multi: "@
        + decimal_digits(stats.multi as nat)
}

/// What is said of a player who has gained a life.
pub open spec fn life_line(nickname: Seq<char>, lives: u64) -> Seq<char> {
    nickname + " has gained a life ("@ + decimal_digits(lives as nat) + ")"@
}

/// The room and the messages after a milestone of the game: in the seating
/// phase the assistant takes a seat; if the turn is the assistant's, it takes
/// the syllable and plays on it, and without a syllable the handling ends in
/// `MissingSyllable`.
pub open spec fn after_milestone<S>(
    pre: BotView<S>,
    name: Seq<char>,
    current: Option<u64>,
    syllable: Option<Seq<char>>,
) -> (BotView<S>, Seq<Sent>, Option<HandlerError>) {
    let seat = if is_seating(name) {
        seq![Sent::JoinRound]
    } else {
        Seq::empty()
    };
    if current == Some(pre.self_peer_id) {
        match syllable {
            Some(s) => {
                let post = BotView { syllable: s, ..pre };
                (post, seat + play(post, s), None)
            },
            None => (pre, seat, Some(HandlerError::MissingSyllable)),
        }
    } else {
        (pre, seat, None)
    }
}

/// The room and the messages after the turn went to `player`: the room takes
/// the syllable, and the assistant plays on it if the turn is its own.
pub open spec fn after_next_turn<S>(pre: BotView<S>, player: u64, syllable: Seq<char>) -> (
    BotView<S>,
    Seq<Sent>,
) {
    let post = BotView { syllable, ..pre };
    (
        post,
        if player == pre.self_peer_id {
            play(post, syllable)
        } else {
            Seq::empty()
        },
    )
}

/// The room and the messages after the word `word` was accepted: the word is
/// marked as played; for a player other than the assistant it is scored, and
/// announced if it earned a bonus. An event without a player ends in
/// `MissingPeerId` once the word is marked.
pub open spec fn after_accepted_word<S>(pre: BotView<S>, word: Seq<char>, player: Option<u64>) -> (
    BotView<S>,
    Seq<Sent>,
    Option<HandlerError>,
) {
    let marked = BotView { used: pre.used.push(word), ..pre };
    match player {
        None => (marked, Seq::empty(), Some(HandlerError::MissingPeerId)),
        Some(peer_id) => if peer_id != pre.self_peer_id && can_score(marked, peer_id) {
            let post = with_score(marked, peer_id, word);
            let perks = perks_of(word, marked.dictionary);
            (
                post,
                if perks.any() {
                    seq![
                        Sent::Chat(
                            announcement(
                                marked.players[peer_id].nickname,
                                post.players[peer_id],
                                perks,
                                word,
                            ),
                        ),
                    ]
                } else {
                    Seq::empty()
                },
                None,
            )
        } else {
            (marked, Seq::empty(), None)
        },
    }
}

/// The room and the messages after the word being typed was accepted: the
/// word, without the characters that no word may hold, is accepted. If the
/// pattern of those characters does not compile, nothing changes and the
/// handling ends in `BadPattern`.
pub open spec fn after_correct_word<S>(pre: BotView<S>, player: Option<u64>) -> (
    BotView<S>,
    Seq<Sent>,
    Option<HandlerError>,
) {
    match sanitized(pre.player_word) {
        Some(word) => after_accepted_word(pre, word, player),
        None => (pre, Seq::empty(), Some(HandlerError::BadPattern)),
    }
}

/// The room and the messages after the game refused a word of `player`: if it
/// was the assistant's word and the game does not know it, the word leaves
/// the list and the assistant plays again on the current syllable.
pub open spec fn after_fail_word<S>(pre: BotView<S>, player: u64, reason: Seq<char>) -> (
    BotView<S>,
    Seq<Sent>,
) {
    if player == pre.self_peer_id && is_unknown_word(reason) {
        let post = BotView {
            dictionary: crate::types::DictionaryView {
                words: pre.dictionary.words.remove_value(pre.player_word),
                ..pre.dictionary
            },
            ..pre
        };
        (post, play(post, pre.syllable))
    } else {
        (pre, Seq::empty())
    }
}

/// The messages after `peer_id` was left with `lives` lives: a player who has
/// lost the last one is told their totals.
pub open spec fn after_lives_lost<S>(pre: BotView<S>, peer_id: u64, lives: u64) -> Seq<Sent> {
    if lives == 0 && pre.players.contains_key(peer_id) {
        say(pre, farewell(pre.players[peer_id]))
    } else {
        Seq::empty()
    }
}

/// The room and the messages after `peer_id` completed the alphabet: a known
/// player gains a life, and the room is told.
pub open spec fn after_bonus<S>(pre: BotView<S>, peer_id: u64) -> (BotView<S>, Seq<Sent>) {
    if pre.players.contains_key(peer_id) {
        (
            with_life(pre, peer_id),
            say(
                pre,
                life_line(pre.players[peer_id].nickname, bump(pre.players[peer_id].lives)),
            ),
        )
    } else {
        (pre, Seq::empty())
    }
}

impl Outbound {
    /// The name under which the message goes out on a connection; `None` for
    /// leaving, which is no message.
    pub fn event(&self) -> (name: Option<&'static str>)
        ensures
            event_name(self@) == match name {
                Some(text) => Some(text@),
                None => None,
            },
    {
        match self {
            Outbound::JoinRound => Some("joinRound"),
            Outbound::SetWord(_) => Some("setWord"),
            Outbound::Chat(_) => Some("chat"),
            Outbound::StartRound => Some("startRoundNow"),
            Outbound::SetUserModerator(_) => Some("setUserModerator"),
            Outbound::Leave => None,
        }
    }
}

/// The move of the assistant on `syllable`.
fn play_on<S>(bot: &Bot<S>, syllable: &str, outbound: &mut Vec<Outbound>)
    ensures
        sent(final(outbound)@) == sent(old(outbound)@) + play(bot@, syllable@),
{
    if let Some(word) = bot.get_single_word(syllable) {
        outbound.push(Outbound::SetWord(word));
    }
}

/// The chat line `line`, if the room's chat is connected.
fn say_line<S>(bot: &Bot<S>, line: String, outbound: &mut Vec<Outbound>)
    ensures
        sent(final(outbound)@) == sent(old(outbound)@) + say(bot@, line@),
{
    if let BotReply::Chat(text) = bot.set_chat(line) {
        outbound.push(Outbound::Chat(text));
    }
}

/// What is said to a player who has lost their last life.
fn write_farewell(stats: &PlayerStats) -> (line: String)
    ensures
        line@ == farewell(stats@),
{
    let mut line = String::from_str("Well played ");
    line.append(stats.nickname.as_str());
    line.append("! lives: ");
    line.append(decimal(stats.lives).as_str());
    line.append(" \u{2014} words: ");
    line.append(decimal(stats.words).as_str());
    line.append(" \u{2014} subs: ");
    line.append(decimal(stats.subs).as_str());
    line.append(" \u{2014} longs: ");
    line.append(decimal(stats.longs).as_str());
    line.append(" \u{2014} hyphens: ");
    line.append(decimal(stats.hyphens).as_str());
    line.append(" \u{2014} multi: ");
    line.append(decimal(stats.multi).as_str());
    line
}

/// Handles a milestone of the game: its name, the peer at turn if the
/// milestone names one, and the syllable if it names one.
pub fn on_set_milestone<S>(
    bot: &mut Bot<S>,
    name: &str,
    current_player_peer_id: Option<u64>,
    syllable: Option<String>,
) -> (handled: Handled)
    ensures
        (final(bot)@, sent(handled.outbound@), handled.error) == after_milestone(
            old(bot)@,
            name@,
            current_player_peer_id,
            match syllable {
                Some(s) => Some(s@),
                None => None,
            },
        ),
{
    let mut outbound: Vec<Outbound> = Vec::new();
    if same(name, "seating") {
        outbound.push(Outbound::JoinRound);
    }
    let ghost seat = sent(outbound@);
    assert(seat =~= if is_seating(name@) {
        seq![Sent::JoinRound]
    } else {
        Seq::empty()
    });
    if let Some(current) = current_player_peer_id {
        if bot.get_peer_id() == current {
            match syllable {
                Some(s) => {
                    bot.set_syllable(s.clone());
                    play_on(bot, s.as_str(), &mut outbound);
                },
                None => {
                    return Handled { outbound, error: Some(HandlerError::MissingSyllable) };
                },
            }
        }
    }
    Handled { outbound, error: None }
}

/// Handles what the player at turn has typed so far.
pub fn on_set_player_word<S>(bot: &mut Bot<S>, word: String)
    ensures
        final(bot)@ == (BotView { player_word: word@, ..old(bot)@ }),
{
    bot.set_player_word(word);
}

/// Handles the turn going to `player_peer_id` with the syllable `syllable`.
pub fn on_next_turn<S>(bot: &mut Bot<S>, player_peer_id: u64, syllable: String) -> (outbound: Vec<
    Outbound,
>)
    ensures
        (final(bot)@, sent(outbound@)) == after_next_turn(old(bot)@, player_peer_id, syllable@),
{
    let mut outbound: Vec<Outbound> = Vec::new();
    bot.set_syllable(syllable.clone());
    if bot.get_peer_id() == player_peer_id {
        play_on(bot, syllable.as_str(), &mut outbound);
    }
    outbound
}

/// Handles a player joining the game. The assistant itself is no player.
pub fn on_add_player<S>(bot: &mut Bot<S>, nickname: String, peer_id: u64, roles: Vec<String>)
    ensures
        final(bot)@ == crate::bot::with_player(
            old(bot)@,
            nickname@,
            peer_id,
            crate::text::strs(roles@),
        ),
{
    if peer_id != bot.get_peer_id() {
        bot.add_player(nickname, peer_id, roles);
    }
}

/// Takes `word` as accepted by the game; `player_peer_id` is the player who
/// typed it, if the event names one.
pub fn accept_word<S>(bot: &mut Bot<S>, word: String, player_peer_id: Option<u64>) -> (handled:
    Handled)
    ensures
        (final(bot)@, sent(handled.outbound@), handled.error) == after_accepted_word(
            old(bot)@,
            word@,
            player_peer_id,
        ),
{
    let mut outbound: Vec<Outbound> = Vec::new();
    bot.add_used_word(word.clone());
    let peer_id = match player_peer_id {
        Some(peer_id) => peer_id,
        None => {
            return Handled { outbound, error: Some(HandlerError::MissingPeerId) };
        },
    };
    if peer_id != bot.get_peer_id() {
        if let Some(stats) = bot.get_player(peer_id) {
            match bot.is_condierable_word(stats.nickname.as_str(), peer_id, word.as_str()) {
                BotReply::Chat(line) => {
                    outbound.push(Outbound::Chat(line));
                },
                _ => {},
            }
        }
    }
    Handled { outbound, error: None }
}

/// Handles the game accepting the word being typed; `player_peer_id` is the
/// player who typed it, if the event names one.
pub fn on_correct_word<S>(bot: &mut Bot<S>, player_peer_id: Option<u64>) -> (handled: Handled)
    ensures
        (final(bot)@, sent(handled.outbound@), handled.error) == after_correct_word(
            old(bot)@,
            player_peer_id,
        ),
{
    let typed = bot.get_player_word();
    match sanitize(typed.as_str()) {
        Some(word) => accept_word(bot, word, player_peer_id),
        None => Handled { outbound: Vec::new(), error: Some(HandlerError::BadPattern) },
    }
}

/// Handles the game refusing a word of `player_peer_id` for `reason`.
pub fn on_fail_word<S>(bot: &mut Bot<S>, player_peer_id: u64, reason: &str) -> (outbound: Vec<
    Outbound,
>)
    ensures
        (final(bot)@, sent(outbound@)) == after_fail_word(old(bot)@, player_peer_id, reason@),
{
    let mut outbound: Vec<Outbound> = Vec::new();
    if player_peer_id == bot.get_peer_id() && same(reason, "notInDictionary") {
        let refused = bot.get_player_word();
        bot.remove_word(refused.as_str());
        let syllable = bot.get_syllable();
        play_on(bot, syllable.as_str(), &mut outbound);
    }
    outbound
}

/// Handles `peer_id` being left with `lives` lives.
pub fn on_lives_lost<S>(bot: &Bot<S>, peer_id: u64, lives: u64) -> (outbound: Vec<Outbound>)
    ensures
        sent(outbound@) == after_lives_lost(bot@, peer_id, lives),
{
    let mut outbound: Vec<Outbound> = Vec::new();
    if lives == 0 {
        if let Some(stats) = bot.get_player(peer_id) {
            say_line(bot, write_farewell(&stats), &mut outbound);
        }
    }
    outbound
}

/// Handles `peer_id` completing the alphabet.
pub fn on_bonus_alphabet_completed<S>(bot: &mut Bot<S>, peer_id: u64) -> (outbound: Vec<Outbound>)
    ensures
        (final(bot)@, sent(outbound@)) == after_bonus(old(bot)@, peer_id),
{
    let mut outbound: Vec<Outbound> = Vec::new();
    if let Some(stats) = bot.get_player(peer_id) {
        if let Some(lives) = bot.increment_lives(peer_id) {
            let mut line = stats.nickname.clone();
            line.append(" has gained a life (");
            line.append(decimal(lives).as_str());
            line.append(")");
            say_line(bot, line, &mut outbound);
        }
    }
    outbound
}

} // verus!
