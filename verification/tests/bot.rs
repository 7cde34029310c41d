use kaoruko::bot::{Bot, BotMessage, BotReply};
use kaoruko::types::Dictionary;

fn strings(items: &[&str]) -> Vec<String> {
    items.iter().map(|s| s.to_string()).collect()
}

fn room(words: &[&str], notable: &[&str]) -> Bot<u32> {
    Bot::new(Dictionary { dictionary: strings(words), sn: strings(notable) })
}

fn sorted(words: &[String]) -> Vec<String> {
    let mut copy = words.to_vec();
    copy.sort();
    copy
}

fn text(reply: BotReply) -> String {
    match reply {
        BotReply::Text(t) => t,
        other => panic!("no text: {:?}", other),
    }
}

#[test]
fn a_new_room_is_empty_and_its_list_shuffled() {
    let words: Vec<String> = (0..30).map(|i| format!("w{i}")).collect();
    let mut moved = false;
    for _ in 0..20 {
        let bot: Bot<u32> =
            Bot::new(Dictionary { dictionary: words.clone(), sn: strings(&["w3"]) });
        assert_eq!(sorted(&bot.dictionary().dictionary), sorted(&words));
        assert_eq!(bot.dictionary().sn, strings(&["w3"]));
        assert_eq!(bot.get_peer_id(), 0);
        assert_eq!(bot.get_room_creator(), "");
        assert_eq!(bot.get_player_word(), "");
        assert_eq!(bot.get_syllable(), "");
        assert!(bot.game_socket().is_none());
        assert!(bot.room_socket().is_none());
        assert!(bot.get_player(1).is_none());
        assert!(!bot.is_used_word("w1"));
        if bot.dictionary().dictionary != words {
            moved = true;
        }
    }
    assert!(moved);
}

#[test]
fn peer_id_is_kept() {
    let mut bot = room(&[], &[]);
    assert!(matches!(bot.handle_message(BotMessage::SetPeerId { peer_id: 42 }), BotReply::Done));
    assert!(matches!(bot.handle_message(BotMessage::GetPeerId), BotReply::PeerId(42)));
    assert_eq!(bot.get_peer_id(), 42);
}

#[test]
fn room_creator_is_kept() {
    let mut bot = room(&[], &[]);
    let set = bot.handle_message(BotMessage::SetRoomCreator { creator: "777".to_string() });
    assert!(matches!(set, BotReply::Done));
    assert_eq!(text(bot.handle_message(BotMessage::GetRoomCreator)), "777");
}

#[test]
fn syllable_and_player_word_are_kept() {
    let mut bot = room(&[], &[]);
    let _ = bot.handle_message(BotMessage::SetSyllable { syllable: "str".to_string() });
    let _ = bot.handle_message(BotMessage::SetPlayerWord { word: "stre".to_string() });
    assert_eq!(text(bot.handle_message(BotMessage::GetSyllable)), "str");
    assert_eq!(text(bot.handle_message(BotMessage::GetPlayerWord)), "stre");
}

#[test]
fn a_word_marked_twice_is_used() {
    let mut bot = room(&["foo"], &[]);
    assert!(matches!(
        bot.handle_message(BotMessage::IsUsedWord { word: "foo".to_string() }),
        BotReply::Flag(false)
    ));
    let _ = bot.handle_message(BotMessage::AddWord { word: "foo".to_string() });
    let _ = bot.handle_message(BotMessage::AddWord { word: "foo".to_string() });
    assert!(matches!(
        bot.handle_message(BotMessage::IsUsedWord { word: "foo".to_string() }),
        BotReply::Flag(true)
    ));
    assert!(bot.is_used_word("foo"));
    assert!(!bot.is_used_word("fo"));
}

#[test]
fn a_used_word_is_never_picked_even_if_it_is_the_only_match() {
    let mut bot = room(&["foo", "bar"], &[]);
    bot.add_used_word("foo".to_string());
    bot.add_used_word("foo".to_string());
    assert_eq!(bot.get_single_word("fo"), None);
    assert!(matches!(
        bot.handle_message(BotMessage::GetWord { syllable: "fo".to_string() }),
        BotReply::NotFound
    ));
    assert_eq!(bot.get_single_word("ba"), Some("bar".to_string()));
}

#[test]
fn the_first_unused_word_in_the_current_order_is_picked() {
    let mut bot = room(&["street", "stream", "strap"], &[]);
    let order = bot.dictionary().dictionary.clone();
    assert_eq!(text(bot.handle_message(BotMessage::GetWord { syllable: "str".to_string() })), order[0]);
    bot.add_used_word(order[0].clone());
    assert_eq!(bot.get_single_word("str"), Some(order[1].clone()));
    bot.add_used_word(order[1].clone());
    bot.add_used_word(order[2].clone());
    assert_eq!(bot.get_single_word("str"), None);
}

#[test]
fn remove_takes_the_word_out_of_the_list() {
    let mut bot = room(&["apple", "pear"], &[]);
    assert!(matches!(
        bot.handle_message(BotMessage::RemoveWord { word: "apple".to_string() }),
        BotReply::Done
    ));
    assert_eq!(bot.dictionary().dictionary, strings(&["pear"]));
    let _ = bot.handle_message(BotMessage::RemoveWord { word: "nonexistent".to_string() });
    assert_eq!(bot.dictionary().dictionary, strings(&["pear"]));
}

#[test]
fn search_reports_count_and_words() {
    let mut bot = room(&["cat"], &[]);
    assert_eq!(bot.get_words("ca"), "results(1): cat");
    assert_eq!(
        text(bot.handle_message(BotMessage::GetWords { query: "dog".to_string() })),
        "No result found for: dog"
    );
    assert_eq!(bot.get_words("ca("), "too expensive regex");
}

#[test]
fn search_with_twenty_matches_shows_fifteen() {
    let words: Vec<String> = (0..20).map(|i| format!("w{i}xyz")).collect();
    let mut bot: Bot<u32> = Bot::new(Dictionary { dictionary: words.clone(), sn: Vec::new() });
    let order = bot.dictionary().dictionary.clone();
    let line = bot.get_words("xyz");
    assert_eq!(line, format!("results(20): {}", order[..15].join(", ")));
    assert_eq!(sorted(&bot.dictionary().dictionary), sorted(&words));
}

#[test]
fn search_without_match_leaves_the_order() {
    let words: Vec<String> = (0..20).map(|i| format!("w{i}")).collect();
    let mut bot: Bot<u32> = Bot::new(Dictionary { dictionary: words, sn: Vec::new() });
    let order = bot.dictionary().dictionary.clone();
    assert_eq!(bot.get_words("xyz"), "No result found for: xyz");
    assert_eq!(bot.dictionary().dictionary, order);
}

#[test]
fn a_player_is_added_with_totals_of_zero() {
    let mut bot = room(&[], &[]);
    bot.set_peer_id(1);
    let added = bot.handle_message(BotMessage::AddPlayer {
        nickname: "ann".to_string(),
        peer_id: 7,
        roles: strings(&["leader"]),
    });
    assert!(matches!(added, BotReply::Done));
    match bot.handle_message(BotMessage::GetPlayer { peer_id: 7 }) {
        BotReply::Player(stats) => {
            assert_eq!(stats.nickname, "ann");
            assert_eq!(stats.roles, strings(&["leader"]));
            assert_eq!(
                (stats.words, stats.subs, stats.longs, stats.hyphens, stats.multi, stats.lives, stats.streak),
                (0, 0, 0, 0, 0, 0, 0)
            );
        }
        other => panic!("no player: {:?}", other),
    }
    assert!(matches!(bot.handle_message(BotMessage::GetPlayer { peer_id: 8 }), BotReply::NotFound));
}

#[test]
fn adding_a_player_again_starts_them_over() {
    let mut bot = room(&[], &[]);
    bot.add_player("ann".to_string(), 7, Vec::new());
    assert_eq!(bot.increment_lives(7), Some(1));
    bot.add_player("anna".to_string(), 7, Vec::new());
    let stats = bot.get_player(7).unwrap();
    assert_eq!(stats.nickname, "anna");
    assert_eq!(stats.lives, 0);
}

#[test]
fn the_assistant_itself_is_no_player() {
    let mut bot = room(&[], &[]);
    bot.set_peer_id(5);
    bot.add_player("kaoruko".to_string(), 5, Vec::new());
    assert!(bot.get_player(5).is_none());
}

#[test]
fn lives_add_up_without_loss() {
    let mut bot = room(&[], &[]);
    bot.add_player("ann".to_string(), 7, Vec::new());
    bot.add_player("bob".to_string(), 8, Vec::new());
    for n in 1..=1000u64 {
        match bot.handle_message(BotMessage::UpdateLives { peer_id: 7 }) {
            BotReply::Lives(lives) => assert_eq!(lives, n),
            other => panic!("no lives: {:?}", other),
        }
    }
    assert_eq!(bot.get_player(7).unwrap().lives, 1000);
    assert_eq!(bot.get_player(8).unwrap().lives, 0);
}

#[test]
fn a_life_for_an_unknown_player_is_not_found() {
    let mut bot = room(&[], &[]);
    assert_eq!(bot.increment_lives(3), None);
    assert!(matches!(bot.handle_message(BotMessage::UpdateLives { peer_id: 3 }), BotReply::NotFound));
    assert!(bot.get_player(3).is_none());
}

#[test]
fn sockets_are_kept() {
    let mut bot = room(&[], &[]);
    assert!(matches!(bot.handle_message(BotMessage::SetGameSocket { socket: 11 }), BotReply::Done));
    assert!(matches!(bot.handle_message(BotMessage::SetRoomSocket { socket: 22 }), BotReply::Done));
    assert_eq!(bot.game_socket(), Some(&11));
    assert_eq!(bot.room_socket(), Some(&22));
}

#[test]
fn start_round_wants_the_game_connected() {
    let mut bot = room(&[], &[]);
    assert!(matches!(bot.handle_message(BotMessage::StartRoundNow), BotReply::NotFound));
    bot.set_game_socket(1);
    assert!(matches!(bot.handle_message(BotMessage::StartRoundNow), BotReply::StartRound));
}

#[test]
fn chat_wants_the_room_connected() {
    let mut bot = room(&[], &[]);
    let unsent = bot.handle_message(BotMessage::SetChat { message: "hi".to_string() });
    assert!(matches!(unsent, BotReply::NotFound));
    bot.set_room_socket(2);
    match bot.handle_message(BotMessage::SetChat { message: "hi".to_string() }) {
        BotReply::Chat(line) => assert_eq!(line, "hi"),
        other => panic!("no chat: {:?}", other),
    }
}

#[test]
fn scoring_a_hyphenated_word_announces_it() {
    let mut bot = room(&["hyphen-ated"], &[]);
    bot.set_room_socket(2);
    bot.add_player("ann".to_string(), 7, Vec::new());
    let reply = bot.handle_message(BotMessage::IsConsiderableWord {
        nickname: "ann".to_string(),
        peer_id: 7,
        word: "hyphen-ated".to_string(),
    });
    match reply {
        BotReply::Chat(line) => {
            assert!(line.contains("a hyphen (1)"));
            assert_eq!(line, "ann has placed a hyphen (1): hyphen-ated");
        }
        other => panic!("no announcement: {:?}", other),
    }
    let stats = bot.get_player(7).unwrap();
    assert_eq!((stats.hyphens, stats.words), (1, 1));
    assert_eq!((stats.longs, stats.subs, stats.multi, stats.lives), (0, 0, 0, 0));
}

#[test]
fn scoring_a_long_word_counts_long_and_word_only() {
    let mut bot = room(&[], &[]);
    bot.set_room_socket(2);
    bot.add_player("ann".to_string(), 7, Vec::new());
    let word = "a".repeat(25);
    let reply = bot.is_condierable_word("ann", 7, &word);
    assert!(matches!(reply, BotReply::Chat(_)));
    let stats = bot.get_player(7).unwrap();
    assert_eq!((stats.longs, stats.words), (1, 1));
    assert_eq!((stats.hyphens, stats.subs, stats.multi, stats.lives), (0, 0, 0, 0));
}

#[test]
fn scoring_a_plain_word_is_silent() {
    let mut bot = room(&["ice"], &[]);
    bot.set_room_socket(2);
    bot.add_player("ann".to_string(), 7, Vec::new());
    assert!(matches!(bot.is_condierable_word("ann", 7, "ice"), BotReply::Done));
    assert_eq!(bot.get_player(7).unwrap().words, 1);
}

#[test]
fn scoring_without_player_or_chat_is_not_found() {
    let mut bot = room(&[], &[]);
    bot.add_player("ann".to_string(), 7, Vec::new());
    assert!(matches!(bot.is_condierable_word("ann", 7, "a-b"), BotReply::NotFound));
    assert_eq!(bot.get_player(7).unwrap().words, 0);
    bot.set_room_socket(2);
    assert!(matches!(bot.is_condierable_word("zed", 9, "a-b"), BotReply::NotFound));
    assert!(bot.get_player(9).is_none());
}
