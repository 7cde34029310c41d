use kaoruko::bot::Bot;
use kaoruko::chat::{on_chat, on_chatter_added, GOODBYE, MODERATOR};
use kaoruko::command::CommandParser;
use kaoruko::game::Outbound;
use kaoruko::roles::SUPERUSER;
use kaoruko::types::{Auth, Chatter, Dictionary, NewChatter};

fn strings(items: &[&str]) -> Vec<String> {
    items.iter().map(|s| s.to_string()).collect()
}

fn room(words: &[&str]) -> Bot<u32> {
    let mut bot = Bot::new(Dictionary { dictionary: strings(words), sn: Vec::new() });
    bot.set_peer_id(1);
    bot
}

fn auth(id: &str) -> Auth {
    Auth { id: id.to_string(), service: "discord".to_string(), username: "user".to_string() }
}

fn chatter(roles: &[&str], id: Option<&str>) -> Chatter {
    Chatter {
        nickname: "ann".to_string(),
        auth: id.map(auth),
        peer_id: 7,
        picture: String::new(),
        roles: strings(roles),
    }
}

fn show(outbound: &[Outbound]) -> Vec<String> {
    outbound.iter().map(|o| format!("{:?}", o)).collect()
}

#[test]
fn a_newcomer_is_greeted() {
    let newcomer = NewChatter { auth: auth("5"), nickname: "ann".to_string(), peer_id: 7 };
    assert_eq!(show(&on_chatter_added(&newcomer)), vec!["Chat(\"Hey, ann!\")"]);
    let anonymous = NewChatter { auth: Auth::default(), nickname: "".to_string(), peer_id: 8 };
    assert_eq!(show(&on_chatter_added(&anonymous)), vec!["Chat(\"Hey, !\")"]);
}

#[test]
fn moderators_are_made_moderators() {
    assert_eq!(MODERATOR, "907638639314473060");
    for id in [SUPERUSER, MODERATOR] {
        let newcomer = NewChatter { auth: auth(id), nickname: "mod".to_string(), peer_id: 12 };
        assert_eq!(
            show(&on_chatter_added(&newcomer)),
            vec!["Chat(\"Hey, mod!\")", "SetUserModerator(12)"]
        );
    }
}

#[test]
fn a_line_without_the_mark_is_passed_over() {
    let parser = CommandParser::new().unwrap();
    let mut bot = room(&["cat"]);
    for line in ["hello there", "c cat", "", " !c cat", "help"] {
        assert!(on_chat(&mut bot, &parser, &chatter(&[], None), line).is_empty());
    }
}

#[test]
fn a_search_answers_its_result() {
    let parser = CommandParser::new().unwrap();
    let mut bot = room(&["cat"]);
    let out = on_chat(&mut bot, &parser, &chatter(&[], None), "!c ca");
    assert_eq!(show(&out), vec!["Chat(\"results(1): cat\")"]);
    let none = on_chat(&mut bot, &parser, &chatter(&[], None), "!search dog");
    assert_eq!(show(&none), vec!["Chat(\"No result found for: dog\")"]);
    let broken = on_chat(&mut bot, &parser, &chatter(&[], None), "!c ca(");
    assert_eq!(show(&broken), vec!["Chat(\"too expensive regex\")"]);
}

#[test]
fn a_search_keeps_the_spaces_of_its_query() {
    let parser = CommandParser::new().unwrap();
    let mut bot = room(&["ice cream"]);
    let out = on_chat(&mut bot, &parser, &chatter(&[], None), "!c ice cream");
    assert_eq!(show(&out), vec!["Chat(\"results(1): ice cream\")"]);
}

#[test]
fn a_search_without_query_searches_for_the_syllable() {
    let parser = CommandParser::new().unwrap();
    let mut bot = room(&["street", "apple"]);
    bot.set_syllable("str".to_string());
    let out = on_chat(&mut bot, &parser, &chatter(&[], None), "!c");
    assert_eq!(show(&out), vec!["Chat(\"results(1): street\")"]);
}

#[test]
fn help_answers_the_help_text() {
    let parser = CommandParser::new().unwrap();
    let mut bot = room(&[]);
    let out = on_chat(&mut bot, &parser, &chatter(&[], None), "!h sn");
    assert_eq!(show(&out), vec!["Chat(\"start the game now\")"]);
    let same = on_chat(&mut bot, &parser, &chatter(&[], None), "!help startnow");
    assert_eq!(show(&same), vec!["Chat(\"start the game now\")"]);
    let unknown = on_chat(&mut bot, &parser, &chatter(&[], None), "!help dance");
    assert_eq!(show(&unknown), vec!["Chat(\"unknown command\")"]);
    let empty = on_chat(&mut bot, &parser, &chatter(&[], None), "!help");
    assert_eq!(show(&empty), vec!["Chat(\"unknown command\")"]);
}

#[test]
fn an_unknown_command_is_told() {
    let parser = CommandParser::new().unwrap();
    let mut bot = room(&[]);
    let out = on_chat(&mut bot, &parser, &chatter(&[], None), "!dance now");
    assert_eq!(show(&out), vec!["Chat(\"unknown command\")"]);
    let bare = on_chat(&mut bot, &parser, &chatter(&[], None), "!");
    assert_eq!(show(&bare), vec!["Chat(\"unknown command\")"]);
}

#[test]
fn start_now_wants_a_developer_and_the_game() {
    let parser = CommandParser::new().unwrap();
    let mut bot = room(&[]);
    let refused = on_chat(&mut bot, &parser, &chatter(&["anyone"], Some("5")), "!sn");
    assert_eq!(show(&refused), vec!["Chat(\"you are not eligible to use this command\")"]);
    let unconnected = on_chat(&mut bot, &parser, &chatter(&["developer"], None), "!sn");
    assert!(unconnected.is_empty());
    bot.set_game_socket(3);
    let started = on_chat(&mut bot, &parser, &chatter(&["developer"], None), "!sn");
    assert_eq!(show(&started), vec!["StartRound"]);
    let privileged = on_chat(&mut bot, &parser, &chatter(&[], Some(SUPERUSER)), "!startnow");
    assert_eq!(show(&privileged), vec!["StartRound"]);
}

#[test]
fn exit_is_refused_while_no_creator_is_set_and_the_author_has_no_id() {
    let parser = CommandParser::new().unwrap();
    let mut bot = room(&[]);
    let refused = on_chat(&mut bot, &parser, &chatter(&["developer"], None), "!exit");
    assert_eq!(show(&refused), vec!["Chat(\"you are not eligible to use this command\")"]);
}

#[test]
fn exit_says_goodbye_and_leaves() {
    assert_eq!(GOODBYE, "sayonara!");
    let parser = CommandParser::new().unwrap();
    let mut bot = room(&[]);
    bot.set_room_creator("55".to_string());
    let refused = on_chat(&mut bot, &parser, &chatter(&["developer"], Some("5")), "!exit");
    assert_eq!(show(&refused), vec!["Chat(\"you are not eligible to use this command\")"]);
    let creator = on_chat(&mut bot, &parser, &chatter(&["developer"], Some("55")), "!exit");
    assert_eq!(show(&creator), vec!["Chat(\"sayonara!\")", "Leave"]);
    let privileged = on_chat(&mut bot, &parser, &chatter(&[], Some(SUPERUSER)), "!exit now");
    assert_eq!(show(&privileged), vec!["Chat(\"sayonara!\")", "Leave"]);
}
