use kaoruko::utils::{create_user_token, shuffle, shuffle_with, token_of, TOKEN_LENGTH};

fn strings(items: &[&str]) -> Vec<String> {
    items.iter().map(|s| s.to_string()).collect()
}

#[test]
fn shuffle_with_exchanges_from_the_last_position_down() {
    let mut words = strings(&["a", "b", "c", "d"]);
    // position 3 with 0, position 2 with 2, position 1 with 0, position 0 with 0
    shuffle_with(&mut words, &vec![0, 0, 2, 0]);
    assert_eq!(words, strings(&["b", "d", "c", "a"]));
}

#[test]
fn shuffle_with_each_position_as_its_own_partner_changes_nothing() {
    let mut words = strings(&["a", "b", "c"]);
    shuffle_with(&mut words, &vec![0, 1, 2]);
    assert_eq!(words, strings(&["a", "b", "c"]));
}

#[test]
fn shuffle_with_no_words_does_nothing() {
    let mut words: Vec<String> = Vec::new();
    shuffle_with(&mut words, &Vec::new());
    assert!(words.is_empty());
}

#[test]
fn shuffle_is_a_permutation() {
    let before = strings(&["e", "a", "d", "a", "b", "c", "e", "f", "g", "h"]);
    for _ in 0..50 {
        let mut words = before.clone();
        shuffle(&mut words);
        assert_eq!(words.len(), before.len());
        let mut sorted = words.clone();
        sorted.sort();
        let mut expected = before.clone();
        expected.sort();
        assert_eq!(sorted, expected);
    }
}

#[test]
fn shuffle_reaches_other_orders() {
    let before: Vec<String> = (0..20).map(|i| i.to_string()).collect();
    let mut moved = false;
    for _ in 0..20 {
        let mut words = before.clone();
        shuffle(&mut words);
        if words != before {
            moved = true;
        }
    }
    assert!(moved);
}

#[test]
fn shuffle_of_one_or_no_word() {
    let mut none: Vec<String> = Vec::new();
    shuffle(&mut none);
    assert!(none.is_empty());
    let mut one = strings(&["only"]);
    shuffle(&mut one);
    assert_eq!(one, strings(&["only"]));
}

#[test]
fn user_token_is_sixteen_lower_case_letters() {
    assert_eq!(TOKEN_LENGTH, 16);
    for _ in 0..100 {
        let token = create_user_token();
        assert_eq!(token.chars().count(), 16);
        assert!(token.chars().all(|c| ('a'..='z').contains(&c)));
    }
}

#[test]
fn user_tokens_differ() {
    let first = create_user_token();
    let mut differs = false;
    for _ in 0..10 {
        if create_user_token() != first {
            differs = true;
        }
    }
    assert!(differs);
}

#[test]
fn a_token_holds_the_drawn_letters_in_lower_case() {
    assert_eq!(token_of(&b"AbCz".to_vec()), "abcz");
    assert_eq!(token_of(&b"ZZaa".to_vec()), "zzaa");
    assert_eq!(token_of(&Vec::new()), "");
    assert_eq!(token_of(&b"a-1".to_vec()), "a-1");
}
