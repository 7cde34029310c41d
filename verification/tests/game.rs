use kaoruko::bot::Bot;
use kaoruko::game::{
    accept_word, on_add_player, on_bonus_alphabet_completed, on_correct_word, on_fail_word,
    on_lives_lost, on_next_turn, on_set_milestone, on_set_player_word, HandlerError, Outbound,
};
use kaoruko::types::Dictionary;

fn strings(items: &[&str]) -> Vec<String> {
    items.iter().map(|s| s.to_string()).collect()
}

fn room(words: &[&str], notable: &[&str]) -> Bot<u32> {
    let mut bot = Bot::new(Dictionary { dictionary: strings(words), sn: strings(notable) });
    bot.set_peer_id(1);
    bot
}

fn show(outbound: &[Outbound]) -> Vec<String> {
    outbound.iter().map(|o| format!("{:?}", o)).collect()
}

#[test]
fn messages_go_out_under_their_names() {
    assert_eq!(Outbound::JoinRound.event(), Some("joinRound"));
    assert_eq!(Outbound::SetWord("w".to_string()).event(), Some("setWord"));
    assert_eq!(Outbound::Chat("c".to_string()).event(), Some("chat"));
    assert_eq!(Outbound::StartRound.event(), Some("startRoundNow"));
    assert_eq!(Outbound::SetUserModerator(3).event(), Some("setUserModerator"));
    assert_eq!(Outbound::Leave.event(), None);
}

#[test]
fn seating_makes_the_assistant_take_a_seat() {
    let mut bot = room(&["street"], &[]);
    let handled = on_set_milestone(&mut bot, "seating", None, None);
    assert_eq!(show(&handled.outbound), vec!["JoinRound"]);
    assert_eq!(handled.error, None);
    assert_eq!(bot.get_syllable(), "");
}

#[test]
fn a_round_with_the_assistant_at_turn_makes_it_play() {
    let mut bot = room(&["street"], &[]);
    let handled = on_set_milestone(&mut bot, "round", Some(1), Some("str".to_string()));
    assert_eq!(show(&handled.outbound), vec!["SetWord(\"street\")"]);
    assert_eq!(handled.error, None);
    assert_eq!(bot.get_syllable(), "str");
}

#[test]
fn a_round_with_another_player_at_turn_changes_nothing() {
    let mut bot = room(&["street"], &[]);
    let handled = on_set_milestone(&mut bot, "round", Some(2), Some("str".to_string()));
    assert!(handled.outbound.is_empty());
    assert_eq!(handled.error, None);
    assert_eq!(bot.get_syllable(), "");
}

#[test]
fn a_turn_of_the_assistant_without_syllable_is_an_error() {
    let mut bot = room(&["street"], &[]);
    let handled = on_set_milestone(&mut bot, "seating", Some(1), None);
    assert_eq!(show(&handled.outbound), vec!["JoinRound"]);
    assert_eq!(handled.error, Some(HandlerError::MissingSyllable));
    assert_eq!(bot.get_syllable(), "");
}

#[test]
fn the_word_being_typed_is_kept() {
    let mut bot = room(&[], &[]);
    on_set_player_word(&mut bot, "stre".to_string());
    assert_eq!(bot.get_player_word(), "stre");
}

#[test]
fn next_turn_takes_the_syllable_and_plays_on_the_assistants_turn() {
    let mut bot = room(&["street", "apple"], &[]);
    let other = on_next_turn(&mut bot, 2, "app".to_string());
    assert!(other.is_empty());
    assert_eq!(bot.get_syllable(), "app");
    let own = on_next_turn(&mut bot, 1, "str".to_string());
    assert_eq!(show(&own), vec!["SetWord(\"street\")"]);
    assert_eq!(bot.get_syllable(), "str");
}

#[test]
fn next_turn_without_a_word_plays_nothing() {
    let mut bot = room(&["street"], &[]);
    assert!(on_next_turn(&mut bot, 1, "xyz".to_string()).is_empty());
    bot.add_used_word("street".to_string());
    assert!(on_next_turn(&mut bot, 1, "str".to_string()).is_empty());
}

#[test]
fn players_are_added_but_not_the_assistant() {
    let mut bot = room(&[], &[]);
    on_add_player(&mut bot, "ann".to_string(), 7, strings(&["leader"]));
    on_add_player(&mut bot, "kaoruko".to_string(), 1, Vec::new());
    assert_eq!(bot.get_player(7).unwrap().nickname, "ann");
    assert!(bot.get_player(1).is_none());
}

#[test]
fn a_correct_word_is_marked_and_scored() {
    let mut bot = room(&["well"], &["well-known"]);
    bot.set_room_socket(9);
    bot.add_player("ann".to_string(), 7, Vec::new());
    bot.set_player_word("WELL-known!".to_string());
    let handled = on_correct_word(&mut bot, Some(7));
    assert_eq!(handled.error, None);
    assert!(bot.is_used_word("-known"));
    assert_eq!(show(&handled.outbound), vec!["Chat(\"ann has placed a hyphen (1): -known\")"]);
    let stats = bot.get_player(7).unwrap();
    assert_eq!((stats.words, stats.hyphens, stats.subs), (1, 1, 0));
}

#[test]
fn a_correct_word_of_the_notable_set_is_announced() {
    let mut bot = room(&["well"], &["well-known"]);
    bot.set_room_socket(9);
    bot.add_player("ann".to_string(), 7, Vec::new());
    bot.set_player_word("well-known".to_string());
    let handled = on_correct_word(&mut bot, Some(7));
    assert_eq!(
        show(&handled.outbound),
        vec!["Chat(\"ann has placed a hyphen (1) — a sn (1): well-known\")"]
    );
}

#[test]
fn a_correct_word_of_the_assistant_is_marked_only() {
    let mut bot = room(&[], &[]);
    bot.set_room_socket(9);
    bot.set_player_word("a-b".to_string());
    let handled = on_correct_word(&mut bot, Some(1));
    assert!(handled.outbound.is_empty());
    assert_eq!(handled.error, None);
    assert!(bot.is_used_word("a-b"));
}

#[test]
fn a_correct_word_of_an_unknown_player_is_marked_only() {
    let mut bot = room(&[], &[]);
    bot.set_room_socket(9);
    bot.set_player_word("a-b".to_string());
    let handled = on_correct_word(&mut bot, Some(7));
    assert!(handled.outbound.is_empty());
    assert!(bot.is_used_word("a-b"));
    assert!(bot.get_player(7).is_none());
}

#[test]
fn a_correct_word_without_player_is_marked_and_an_error() {
    let mut bot = room(&[], &[]);
    bot.set_player_word("plain".to_string());
    let handled = on_correct_word(&mut bot, None);
    assert_eq!(handled.error, Some(HandlerError::MissingPeerId));
    assert!(handled.outbound.is_empty());
    assert!(bot.is_used_word("plain"));
}

#[test]
fn an_accepted_word_is_marked_and_scored_as_it_is_given() {
    let mut bot = room(&["ice", "cream"], &[]);
    bot.set_room_socket(9);
    bot.add_player("ann".to_string(), 7, Vec::new());
    let handled = accept_word(&mut bot, "ice cream".to_string(), Some(7));
    assert_eq!(handled.error, None);
    assert_eq!(show(&handled.outbound), vec!["Chat(\"ann has placed a multi (1): ice cream\")"]);
    assert!(bot.is_used_word("ice cream"));
    let unnamed = accept_word(&mut bot, "Ice".to_string(), None);
    assert_eq!(unnamed.error, Some(HandlerError::MissingPeerId));
    assert!(bot.is_used_word("Ice"));
}

#[test]
fn the_error_of_a_pattern_that_does_not_compile_is_its_own() {
    assert_ne!(HandlerError::BadPattern, HandlerError::MissingPeerId);
    assert_ne!(HandlerError::BadPattern, HandlerError::MissingSyllable);
}

#[test]
fn a_word_that_the_game_does_not_know_leaves_the_list() {
    let mut bot = room(&["strxx", "street"], &[]);
    bot.set_syllable("str".to_string());
    bot.set_player_word("strxx".to_string());
    let outbound = on_fail_word(&mut bot, 1, "notInDictionary");
    assert_eq!(show(&outbound), vec!["SetWord(\"street\")"]);
    assert_eq!(bot.dictionary().dictionary, strings(&["street"]));
}

#[test]
fn other_failures_change_nothing() {
    let mut bot = room(&["strxx", "street"], &[]);
    let order = bot.dictionary().dictionary.clone();
    bot.set_syllable("str".to_string());
    bot.set_player_word("strxx".to_string());
    assert!(on_fail_word(&mut bot, 1, "alreadyUsed").is_empty());
    assert!(on_fail_word(&mut bot, 2, "notInDictionary").is_empty());
    assert_eq!(bot.dictionary().dictionary, order);
}

#[test]
fn a_player_who_lost_the_last_life_is_told_their_totals() {
    let mut bot = room(&["ice"], &[]);
    bot.set_room_socket(9);
    bot.add_player("ann".to_string(), 7, Vec::new());
    let _ = bot.is_condierable_word("ann", 7, "a-b");
    let _ = bot.is_condierable_word("ann", 7, "ice");
    let _ = bot.increment_lives(7);
    let outbound = on_lives_lost(&bot, 7, 0);
    assert_eq!(
        show(&outbound),
        vec!["Chat(\"Well played ann! lives: 1 — words: 2 — subs: 0 — longs: 0 — hyphens: 1 — multi: 0\")"]
    );
}

#[test]
fn a_lost_life_that_is_not_the_last_is_passed_over() {
    let mut bot = room(&[], &[]);
    bot.set_room_socket(9);
    bot.add_player("ann".to_string(), 7, Vec::new());
    assert!(on_lives_lost(&bot, 7, 1).is_empty());
    assert!(on_lives_lost(&bot, 8, 0).is_empty());
}

#[test]
fn a_farewell_wants_the_chat_connected() {
    let mut bot = room(&[], &[]);
    bot.add_player("ann".to_string(), 7, Vec::new());
    assert!(on_lives_lost(&bot, 7, 0).is_empty());
}

#[test]
fn the_alphabet_gives_a_life() {
    let mut bot = room(&[], &[]);
    bot.set_room_socket(9);
    bot.add_player("ann".to_string(), 7, Vec::new());
    let first = on_bonus_alphabet_completed(&mut bot, 7);
    assert_eq!(show(&first), vec!["Chat(\"ann has gained a life (1)\")"]);
    let second = on_bonus_alphabet_completed(&mut bot, 7);
    assert_eq!(show(&second), vec!["Chat(\"ann has gained a life (2)\")"]);
    assert_eq!(bot.get_player(7).unwrap().lives, 2);
}

#[test]
fn the_alphabet_of_an_unknown_player_is_passed_over() {
    let mut bot = room(&[], &[]);
    bot.set_room_socket(9);
    assert!(on_bonus_alphabet_completed(&mut bot, 7).is_empty());
    assert!(bot.get_player(7).is_none());
}

#[test]
fn a_life_is_counted_even_if_the_chat_is_not_connected() {
    let mut bot = room(&[], &[]);
    bot.add_player("ann".to_string(), 7, Vec::new());
    assert!(on_bonus_alphabet_completed(&mut bot, 7).is_empty());
    assert_eq!(bot.get_player(7).unwrap().lives, 1);
}
