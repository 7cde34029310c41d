//! Chance: the shuffle that orders a room's word list, and the token under
//! which the assistant signs in.

use crate::text::strs;
use rand::Rng;
use vstd::multiset::*;
use vstd::prelude::*;
use vstd::seq_lib::*;

verus! {

/// `s` with the items at `i` and `j` exchanged.
pub open spec fn swapped<A>(s: Seq<A>, i: int, j: int) -> Seq<A> {
    s.update(i, s[j]).update(j, s[i])
}

/// One partner for each position of a list of `len` items, none above its
/// position.
pub open spec fn valid_picks(picks: Seq<usize>, len: nat) -> bool {
    &&& picks.len() == len
    &&& forall|i: int| 0 <= i < len ==> #[trigger] picks[i] <= i
}

/// `s` after the exchanges of the positions `from..` with their partners, the
/// last position first.
pub open spec fn shuffled_from<A>(s: Seq<A>, picks: Seq<usize>, from: nat) -> Seq<A>
    decreases s.len() - from,
{
    if from >= s.len() {
        s
    } else {
        swapped(shuffled_from(s, picks, from + 1), from as int, picks[from as int] as int)
    }
}

/// `s` after a Fisher–Yates pass that exchanges each position, from the last
/// down to the first, with its partner in `picks`.
pub open spec fn shuffled<A>(s: Seq<A>, picks: Seq<usize>) -> Seq<A> {
    shuffled_from(s, picks, 0)
}

/// How many letters a user token has.
pub const TOKEN_LENGTH: usize = 16;

/// The lower-case letters `a` to `z`.
pub open spec fn is_lower_letter(c: char) -> bool {
    'a' <= c && c <= 'z'
}

/// The codes of the letters `A` to `Z` and `a` to `z`.
pub open spec fn is_letter(b: u8) -> bool {
    (0x41 <= b && b <= 0x5a) || (0x61 <= b && b <= 0x7a)
}

/// The character with the code `b`, in lower case if it is one of the
/// letters `A` to `Z`.
pub open spec fn lower_case(b: u8) -> char {
    if 0x41 <= b && b <= 0x5a {
        (b + 0x20) as char
    } else {
        b as char
    }
}

/// `Rng::random_range` on the thread's generator, over `0..bound`: a number
/// below `bound`. Which one is left open.
#[verifier::external_body]
fn random_below(bound: usize) -> (r: usize)
    requires
        bound > 0,
    ensures
        r < bound,
{
    rand::rng().random_range(0..bound)
}

/// `Rng::sample` of `rand::distr::Alphabetic` on the thread's generator: an
/// ASCII letter, upper or lower case. Which one is left open.
#[verifier::external_body]
fn random_letter() -> (b: u8)
    ensures
        is_letter(b),
{
    rand::rng().sample(rand::distr::Alphabetic)
}

/// An exchange keeps the length and every item.
pub proof fn lemma_swapped_permutes<A>(s: Seq<A>, i: int, j: int)
    requires
        0 <= i < s.len(),
        0 <= j < s.len(),
    ensures
        swapped(s, i, j).len() == s.len(),
        swapped(s, i, j).to_multiset() == s.to_multiset(),
{
    broadcast use group_multiset_axioms;

    let mid = s.update(i, s[j]);
    to_multiset_update(s, i, s[j]);
    to_multiset_update(mid, j, s[i]);
    to_multiset_contains(s, s[i]);
    to_multiset_contains(s, s[j]);
}

/// A pass from any position on keeps the length and every item.
pub proof fn lemma_shuffled_from_permutes<A>(s: Seq<A>, picks: Seq<usize>, from: nat)
    requires
        valid_picks(picks, s.len()),
    ensures
        shuffled_from(s, picks, from).len() == s.len(),
        shuffled_from(s, picks, from).to_multiset() == s.to_multiset(),
    decreases s.len() - from,
{
    if from < s.len() {
        lemma_shuffled_from_permutes(s, picks, from + 1);
        lemma_swapped_permutes(
            shuffled_from(s, picks, from + 1),
            from as int,
            picks[from as int] as int,
        );
    }
}

/// A shuffle is a permutation: the result has the same length and holds every
/// item as often as the list before, whatever the partners were.
pub proof fn lemma_shuffled_permutes<A>(s: Seq<A>, picks: Seq<usize>)
    requires
        valid_picks(picks, s.len()),
    ensures
        shuffled(s, picks).len() == s.len(),
        shuffled(s, picks).to_multiset() == s.to_multiset(),
{
    lemma_shuffled_from_permutes(s, picks, 0);
}

/// Shuffling strings is shuffling their texts.
pub proof fn lemma_shuffled_from_strs(s: Seq<String>, picks: Seq<usize>, from: nat)
    requires
        valid_picks(picks, s.len()),
    ensures
        strs(shuffled_from(s, picks, from)) == shuffled_from(strs(s), picks, from),
    decreases s.len() - from,
{
    if from < s.len() {
        lemma_shuffled_from_strs(s, picks, from + 1);
        lemma_shuffled_from_permutes(s, picks, from + 1);
    }
}

/// One partner for each position of a list of `len` items, drawn by chance.
fn draw_picks(len: usize) -> (picks: Vec<usize>)
    ensures
        valid_picks(picks@, len as nat),
{
    let mut picks: Vec<usize> = Vec::new();
    let mut i: usize = 0;
    while i < len
        invariant
            i <= len,
            picks@.len() == i,
            forall|k: int| 0 <= k < i ==> #[trigger] picks@[k] <= k,
        decreases len - i,
    {
        let pick = random_below(i + 1);
        picks.push(pick);
        i = i + 1;
    }
    picks
}

/// The Fisher–Yates pass with the given partners: from the last position down
/// to the first, each position is exchanged with its partner.
pub fn shuffle_with(words: &mut Vec<String>, picks: &Vec<usize>)
    requires
        valid_picks(picks@, old(words)@.len()),
    ensures
        final(words)@ == shuffled(old(words)@, picks@),
{
    let ghost before = words@;
    let mut current: usize = words.len();
    while current != 0
        invariant
            current <= words.len(),
            words@.len() == before.len(),
            valid_picks(picks@, before.len()),
            words@ == shuffled_from(before, picks@, current as nat),
        decreases current,
    {
        current = current - 1;
        let partner = picks[current];
        let here = words[current].clone();
        let there = words[partner].clone();
        words[current] = there;
        words[partner] = here;
        proof {
            lemma_shuffled_from_permutes(before, picks@, (current + 1) as nat);
        }
    }
}

/// Puts `words` in an order drawn by chance, by one Fisher–Yates pass. The
/// result is a permutation of the list before (`lemma_shuffled_permutes`).
pub fn shuffle(words: &mut Vec<String>)
    ensures
        exists|picks: Seq<usize>|
            valid_picks(picks, old(words)@.len()) && final(words)@ == #[trigger] shuffled(
                old(words)@,
                picks,
            ),
{
    let picks = draw_picks(words.len());
    shuffle_with(words, &picks);
}

/// The token made of the drawn letters: each letter in lower case, in the
/// order in which they were drawn.
pub fn token_of(drawn: &Vec<u8>) -> (token: String)
    ensures
        token@ == Seq::new(drawn@.len(), |i: int| lower_case(drawn@[i])),
{
    let mut token = String::new();
    let mut i: usize = 0;
    while i < drawn.len()
        invariant
            i <= drawn.len(),
            token@ == Seq::new(i as nat, |k: int| lower_case(drawn@[k])),
        decreases drawn.len() - i,
    {
        let letter = drawn[i];
        let lower: u8 = if 0x41 <= letter && letter <= 0x5a {
            letter + 0x20
        } else {
            letter
        };
        token.push(lower as char);
        i = i + 1;
    }
    token
}

/// A new user token: sixteen lower-case letters drawn by chance.
pub fn create_user_token() -> (token: String)
    ensures
        token@.len() == TOKEN_LENGTH,
        forall|i: int| 0 <= i < token@.len() ==> is_lower_letter(#[trigger] token@[i]),
{
    let mut drawn: Vec<u8> = Vec::new();
    let mut i: usize = 0;
    while i < TOKEN_LENGTH
        invariant
            i <= TOKEN_LENGTH,
            drawn@.len() == i,
            forall|k: int| 0 <= k < i ==> is_letter(#[trigger] drawn@[k]),
        decreases TOKEN_LENGTH - i,
    {
        drawn.push(random_letter());
        i = i + 1;
    }
    token_of(&drawn)
}

} // verus!
