//! What the assistant does when somebody speaks or enters the chat: greet a
//! newcomer, and answer a chat line that is a command.

use crate::bot::{searched, Bot, BotReply, BotView};
use crate::command::{command_called, command_parsed, declared_description, Command, CommandParser};
use crate::game::{sent, Outbound, Sent};
use crate::roles::{auth_id, error_text, Caller, SUPERUSER};
use crate::text::{head_word, is_marked, same, split_command, strip_mark, strs, tail_text};
use crate::types::{clone_strings, Chatter, NewChatter};
use vstd::prelude::*;

verus! {

/// The id of the moderator who is made one on entering, beside the privileged
/// identity.
pub const MODERATOR: &'static str = "907638639314473060";

/// What is said when the assistant leaves.
pub const GOODBYE: &'static str = "sayonara!";

/// Whoever is signed in under this id is made a moderator on entering.
pub open spec fn is_moderator(id: Seq<char>) -> bool {
    id == SUPERUSER@ || id == MODERATOR@
}

/// What is said to somebody who enters the chat.
pub open spec fn greeting(nickname: Seq<char>) -> Seq<char> {
    "Hey, "@ + nickname + "!"@
}

/// The messages after `chatter` entered the chat: a greeting, and the
/// moderator's rights for those who are to have them.
pub open spec fn after_chatter_added(chatter: NewChatter) -> Seq<Sent> {
    seq![Sent::Chat(greeting(chatter.nickname@))] + if is_moderator(chatter.auth.id@) {
        seq![Sent::SetUserModerator(chatter.peer_id)]
    } else {
        Seq::empty()
    }
}

/// The author of a chat line as the role clauses see them, in the room `room`.
pub open spec fn chat_caller<S>(room: BotView<S>, chatter: Chatter) -> Caller {
    Caller {
        roles: strs(chatter.roles@),
        id: auth_id(chatter.auth),
        room_creator: room.room_creator,
    }
}

/// What a search command searches for: its query, or the current syllable if
/// the query is empty.
pub open spec fn search_query<S>(room: BotView<S>, query: Seq<char>) -> Seq<char> {
    if query.len() == 0 {
        room.syllable
    } else {
        query
    }
}

/// What a help command answers: the help text of the command that the query
/// calls, or why the query calls none.
pub open spec fn help_line(query: Seq<char>) -> Seq<char> {
    match command_called(query) {
        Ok(command) => declared_description(command),
        Err(e) => error_text(e),
    }
}

/// The chat line `message` of `chatter` takes the room from `pre` to `post`
/// and is answered by the messages `out`. A line whose first word does not
/// begin with `!` is no command and is passed over. Otherwise the word after
/// the mark is parsed for the author; an error is told to them, and a command
/// is carried out: a search answers its result, an exit says goodbye and
/// leaves, a help answers the help text, a start orders the round to start if
/// the game is connected.
pub open spec fn chatted<S>(
    pre: BotView<S>,
    chatter: Chatter,
    message: Seq<char>,
    post: BotView<S>,
    out: Seq<Sent>,
) -> bool {
    let word = head_word(message);
    let query = tail_text(message);
    if !is_marked(word) {
        post == pre && out == Seq::<Sent>::empty()
    } else {
        match command_parsed(word.skip(1), chat_caller(pre, chatter)) {
            Err(e) => post == pre && out == seq![Sent::Chat(error_text(e))],
            Ok(Command::Search) => exists|line: Seq<char>| #[trigger]
                searched(pre, search_query(pre, query), post, line) && out == seq![
                    Sent::Chat(line),
                ],
            Ok(Command::Exit) => post == pre && out == seq![Sent::Chat(GOODBYE@), Sent::Leave],
            Ok(Command::Help) => post == pre && out == seq![Sent::Chat(help_line(query))],
            Ok(Command::StartNow) => post == pre && out == if pre.game_socket is Some {
                seq![Sent::StartRound]
            } else {
                Seq::<Sent>::empty()
            },
        }
    }
}

/// Handles somebody entering the chat.
pub fn on_chatter_added(chatter: &NewChatter) -> (outbound: Vec<Outbound>)
    ensures
        sent(outbound@) == after_chatter_added(*chatter),
{
    let mut outbound: Vec<Outbound> = Vec::new();
    let mut line = String::from_str("Hey, ");
    line.append(chatter.nickname.as_str());
    line.append("!");
    outbound.push(Outbound::Chat(line));
    let id = chatter.auth.id.as_str();
    if same(id, SUPERUSER) || same(id, MODERATOR) {
        outbound.push(Outbound::SetUserModerator(chatter.peer_id));
    }
    outbound
}

/// Handles the chat line `message` of `chatter`.
pub fn on_chat<S>(
    bot: &mut Bot<S>,
    parser: &CommandParser,
    chatter: &Chatter,
    message: &str,
) -> (outbound: Vec<Outbound>)
    ensures
        chatted(old(bot)@, *chatter, message@, final(bot)@, sent(outbound@)),
{
    let mut outbound: Vec<Outbound> = Vec::new();
    assert(sent(outbound@) =~= Seq::<Sent>::empty());
    let (word, query) = split_command(message);
    let name = match strip_mark(word.as_str()) {
        Some(name) => name,
        None => {
            return outbound;
        },
    };
    let ghost pre = bot@;
    let parsed = parser.parse_command(
        name.as_str(),
        clone_strings(&chatter.roles),
        chatter.auth.as_ref(),
        bot.get_room_creator(),
    );
    match parsed {
        Err(e) => {
            outbound.push(Outbound::Chat(String::from_str(e.message())));
            assert(sent(outbound@) =~= seq![Sent::Chat(error_text(e))]);
        },
        Ok(Command::Search) => {
            let wanted = if query.as_str().is_empty() {
                bot.get_syllable()
            } else {
                query
            };
            let line = bot.get_words(wanted.as_str());
            outbound.push(Outbound::Chat(line));
            assert(sent(outbound@) =~= seq![Sent::Chat(line@)]);
            assert(searched(pre, search_query(pre, query@), bot@, line@));
        },
        Ok(Command::Exit) => {
            outbound.push(Outbound::Chat(String::from_str(GOODBYE)));
            outbound.push(Outbound::Leave);
            assert(sent(outbound@) =~= seq![Sent::Chat(GOODBYE@), Sent::Leave]);
        },
        Ok(Command::Help) => {
            let line = match parser.parse(query.as_str()) {
                Ok(command) => String::from_str(parser.help(command)),
                Err(e) => String::from_str(e.message()),
            };
            outbound.push(Outbound::Chat(line));
            assert(sent(outbound@) =~= seq![Sent::Chat(help_line(query@))]);
        },
        Ok(Command::StartNow) => {
            if let BotReply::StartRound = bot.start_round_now() {
                outbound.push(Outbound::StartRound);
                assert(sent(outbound@) =~= seq![Sent::StartRound]);
            }
        },
    }
    outbound
}

} // verus!
