use kaoruko::score::{bumped, find_perks, score, LONG_WORD};
use kaoruko::types::{Dictionary, PlayerStats};

fn strings(items: &[&str]) -> Vec<String> {
    items.iter().map(|s| s.to_string()).collect()
}

fn dictionary() -> Dictionary {
    Dictionary {
        dictionary: strings(&["ice", "cream", "well", "hyphen-ated", "zebra"]),
        sn: strings(&["zebra", "well-known"]),
    }
}

fn player() -> PlayerStats {
    PlayerStats::new("ann".to_string(), Vec::new())
}

#[test]
fn long_words_begin_at_twenty_bytes() {
    assert_eq!(LONG_WORD, 20);
    let d = dictionary();
    assert!(!find_perks(&"a".repeat(19), &d).long);
    assert!(find_perks(&"a".repeat(20), &d).long);
    assert!(find_perks(&"a".repeat(25), &d).long);
}

#[test]
fn length_is_counted_in_bytes() {
    let d = dictionary();
    // ten letters of two bytes each
    assert!(find_perks(&"é".repeat(10), &d).long);
    assert!(!find_perks(&"é".repeat(9), &d).long);
}

#[test]
fn perks_of_a_plain_word_are_none() {
    let perks = find_perks("ice", &dictionary());
    assert!(!perks.long && !perks.hyphen && !perks.notable && !perks.multi);
}

#[test]
fn multi_wants_every_part_in_the_list() {
    let d = dictionary();
    assert!(find_perks("ice cream", &d).multi);
    assert!(!find_perks("ice tea", &d).multi);
    assert!(!find_perks("icecream", &d).multi);
    assert!(!find_perks("ice  cream", &d).multi);
    assert!(!find_perks("ice ", &d).multi);
}

#[test]
fn notable_goes_by_the_notable_list() {
    let d = dictionary();
    assert!(find_perks("zebra", &d).notable);
    assert!(!find_perks("ice", &d).notable);
    let perks = find_perks("well-known", &d);
    assert!(perks.notable && perks.hyphen);
}

#[test]
fn a_counter_stops_at_its_largest_number() {
    assert_eq!(bumped(0), 1);
    assert_eq!(bumped(41), 42);
    assert_eq!(bumped(u64::MAX - 1), u64::MAX);
    assert_eq!(bumped(u64::MAX), u64::MAX);
}

#[test]
fn a_hyphenated_word_counts_as_hyphen_and_word_only() {
    let mut stats = player();
    let line = score(&mut stats, "ann", "hyphen-ated", &dictionary());
    assert_eq!(stats.hyphens, 1);
    assert_eq!(stats.words, 1);
    assert_eq!((stats.longs, stats.subs, stats.multi, stats.lives, stats.streak), (0, 0, 0, 0, 0));
    let line = line.unwrap();
    assert!(line.contains("a hyphen (1)"));
    assert_eq!(line, "ann has placed a hyphen (1): hyphen-ated");
}

#[test]
fn a_long_word_counts_as_long_and_word_only() {
    let mut stats = player();
    let word = "a".repeat(25);
    let line = score(&mut stats, "ann", &word, &dictionary());
    assert_eq!(stats.longs, 1);
    assert_eq!(stats.words, 1);
    assert_eq!((stats.hyphens, stats.subs, stats.multi, stats.lives, stats.streak), (0, 0, 0, 0, 0));
    assert_eq!(line.unwrap(), format!("ann has placed a long (1): {word}"));
}

#[test]
fn a_plain_word_is_counted_in_silence() {
    let mut stats = player();
    assert_eq!(score(&mut stats, "ann", "ice", &dictionary()), None);
    assert_eq!(stats.words, 1);
    assert_eq!((stats.longs, stats.hyphens, stats.subs, stats.multi), (0, 0, 0, 0));
}

#[test]
fn bonuses_are_announced_in_their_order_with_a_dash_between() {
    let mut stats = player();
    stats.longs = 4;
    stats.hyphens = 9;
    let word = "well-known-and-very-long";
    let mut d = dictionary();
    d.sn.push(word.to_string());
    let line = score(&mut stats, "bob", word, &d).unwrap();
    assert_eq!(
        line,
        "bob has placed a long (5) — a hyphen (10) — a sn (1): well-known-and-very-long"
    );
    assert_eq!((stats.longs, stats.hyphens, stats.subs, stats.multi, stats.words), (5, 10, 1, 0, 1));
}

#[test]
fn a_multi_word_is_announced() {
    let mut stats = player();
    let line = score(&mut stats, "cy", "ice cream", &dictionary()).unwrap();
    assert_eq!(line, "cy has placed a multi (1): ice cream");
    assert_eq!(stats.multi, 1);
    assert_eq!(stats.words, 1);
}

#[test]
fn a_dash_in_the_nickname_stays() {
    let mut stats = player();
    let line = score(&mut stats, "x —y", "a-b", &dictionary()).unwrap();
    assert_eq!(line, "x —y has placed a hyphen (1): a-b");
}

#[test]
fn counts_run_on_from_word_to_word() {
    let mut stats = player();
    let d = dictionary();
    let _ = score(&mut stats, "ann", "a-b", &d);
    let second = score(&mut stats, "ann", "c-d", &d).unwrap();
    assert_eq!(second, "ann has placed a hyphen (2): c-d");
    assert_eq!(stats.words, 2);
}
