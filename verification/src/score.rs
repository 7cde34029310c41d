//! Scoring a played word: which bonuses it earns, how the player's totals
//! move, and what the room is told.

use crate::text::{
    contains_char, decimal, decimal_digits, is_substring, join, joined, lemma_part_in_joined,
    lemma_substring_in_concat, split_tokens, strs, tokens,
};
use crate::types::{Dictionary, DictionaryView, PlayerStats, PlayerStatsView};
use vstd::prelude::*;
use vstd::utf8::encode_utf8;

verus! {

/// From how many bytes on a word is long.
pub const LONG_WORD: usize = 20;

/// The bonuses that a word earns.
pub struct Perks {
    pub long: bool,
    pub hyphen: bool,
    pub notable: bool,
    pub multi: bool,
}

impl Perks {
    /// Whether the word earns any bonus.
    pub open spec fn any(self) -> bool {
        self.long || self.hyphen || self.notable || self.multi
    }
}

/// A word of several parts, each of which is a word of the list.
pub open spec fn is_multi(word: Seq<char>, words: Seq<Seq<char>>) -> bool {
    &&& word.contains(' ')
    &&& forall|i: int| 0 <= i < tokens(word).len() ==> words.contains(#[trigger] tokens(word)[i])
}

/// The bonuses that `word` earns against the word list `dictionary`: long for
/// `LONG_WORD` bytes or more, hyphen for a hyphen in it, notable for a word of
/// the notable set, multi for space-separated parts that are all in the list.
pub open spec fn perks_of(word: Seq<char>, dictionary: DictionaryView) -> Perks {
    Perks {
        long: encode_utf8(word).len() >= LONG_WORD,
        hyphen: word.contains('-'),
        notable: dictionary.notable.contains(word),
        multi: is_multi(word, dictionary.words),
    }
}

/// A counter after one more event. It stays where it is once it has reached
/// the largest number that it can hold.
pub open spec fn bump(n: u64) -> u64 {
    if n < u64::MAX {
        (n + 1) as u64
    } else {
        n
    }
}

/// The totals after a word with the bonuses `perks`: one more word, and one
/// more of each bonus that the word earned.
pub open spec fn scored(stats: PlayerStatsView, perks: Perks) -> PlayerStatsView {
    PlayerStatsView {
        words: bump(stats.words),
        longs: if perks.long {
            bump(stats.longs)
        } else {
            stats.longs
        },
        hyphens: if perks.hyphen {
            bump(stats.hyphens)
        } else {
            stats.hyphens
        },
        subs: if perks.notable {
            bump(stats.subs)
        } else {
            stats.subs
        },
        multi: if perks.multi {
            bump(stats.multi)
        } else {
            stats.multi
        },
        ..stats
    }
}

/// What is said of one bonus: its kind and how often the player has earned it.
pub open spec fn perk_line(kind: Seq<char>, count: u64) -> Seq<char> {
    " a "@ + kind + " ("@ + decimal_digits(count as nat) + ")"@
}

/// `line` if the bonus was earned, nothing otherwise.
pub open spec fn line_if(earned: bool, line: Seq<char>) -> Seq<Seq<char>> {
    if earned {
        seq![line]
    } else {
        Seq::empty()
    }
}

/// What is said of each bonus earned, in the fixed order long, hyphen,
/// notable, multi, with the counts of the totals `after` the word.
pub open spec fn perk_lines(after: PlayerStatsView, perks: Perks) -> Seq<Seq<char>> {
    line_if(perks.long, perk_line("long"@, after.longs)) + line_if(
        perks.hyphen,
        perk_line("hyphen"@, after.hyphens),
    ) + line_if(perks.notable, perk_line("sn"@, after.subs)) + line_if(
        perks.multi,
        perk_line("multi"@, after.multi),
    )
}

/// The chat line that announces a word with bonuses: who placed it, each
/// bonus with its count, a dash between two bonuses, and the word.
pub open spec fn announcement(
    nickname: Seq<char>,
    after: PlayerStatsView,
    perks: Perks,
    word: Seq<char>,
) -> Seq<char> {
    nickname + " has placed"@ + joined(perk_lines(after, perks), " \u{2014}"@) + ": "@ + word
}

/// A word moves the counter of words and the counters of the bonuses that it
/// earned, each by one, and nothing else.
pub proof fn lemma_scored_counts(stats: PlayerStatsView, perks: Perks)
    ensures
        scored(stats, perks).words == bump(stats.words),
        scored(stats, perks).longs == stats.longs || perks.long,
        scored(stats, perks).hyphens == stats.hyphens || perks.hyphen,
        scored(stats, perks).subs == stats.subs || perks.notable,
        scored(stats, perks).multi == stats.multi || perks.multi,
        scored(stats, perks).lives == stats.lives,
        scored(stats, perks).streak == stats.streak,
        scored(stats, perks).nickname == stats.nickname,
        scored(stats, perks).roles == stats.roles,
{
}

/// The announcement names every bonus earned, with its count: what is said
/// of the bonus stands in the announcement.
pub proof fn lemma_announcement_names_perks(
    nickname: Seq<char>,
    after: PlayerStatsView,
    perks: Perks,
    word: Seq<char>,
)
    ensures
        perks.long ==> is_substring(
            perk_line("long"@, after.longs),
            announcement(nickname, after, perks, word),
        ),
        perks.hyphen ==> is_substring(
            perk_line("hyphen"@, after.hyphens),
            announcement(nickname, after, perks, word),
        ),
        perks.notable ==> is_substring(
            perk_line("sn"@, after.subs),
            announcement(nickname, after, perks, word),
        ),
        perks.multi ==> is_substring(
            perk_line("multi"@, after.multi),
            announcement(nickname, after, perks, word),
        ),
{
    let lines = perk_lines(after, perks);
    let sep = " \u{2014}"@;
    let head = nickname + " has placed"@;
    let tail = ": "@ + word;
    let long = line_if(perks.long, perk_line("long"@, after.longs));
    let hyphen = line_if(perks.hyphen, perk_line("hyphen"@, after.hyphens));
    let notable = line_if(perks.notable, perk_line("sn"@, after.subs));
    assert(head + joined(lines, sep) + tail == announcement(nickname, after, perks, word));
    if perks.long {
        lemma_part_in_joined(lines, sep, 0);
        lemma_substring_in_concat(lines[0], head, joined(lines, sep), tail);
    }
    if perks.hyphen {
        let i = long.len() as int;
        lemma_part_in_joined(lines, sep, i);
        lemma_substring_in_concat(lines[i], head, joined(lines, sep), tail);
    }
    if perks.notable {
        let i = (long.len() + hyphen.len()) as int;
        lemma_part_in_joined(lines, sep, i);
        lemma_substring_in_concat(lines[i], head, joined(lines, sep), tail);
    }
    if perks.multi {
        let i = (long.len() + hyphen.len() + notable.len()) as int;
        lemma_part_in_joined(lines, sep, i);
        lemma_substring_in_concat(lines[i], head, joined(lines, sep), tail);
    }
}

/// A counter after one more event.
pub fn bumped(n: u64) -> (m: u64)
    ensures
        m == bump(n),
{
    if n < u64::MAX {
        n + 1
    } else {
        n
    }
}

/// What is said of one bonus.
fn write_perk(kind: &str, count: u64) -> (line: String)
    ensures
        line@ == perk_line(kind@, count),
{
    let mut line = String::from_str(" a ");
    line.append(kind);
    line.append(" (");
    line.append(decimal(count).as_str());
    line.append(")");
    line
}

/// Whether every one of `parts` is a word of the list.
fn all_listed(parts: &Vec<String>, dictionary: &Dictionary) -> (r: bool)
    ensures
        r == forall|i: int|
            0 <= i < parts@.len() ==> dictionary@.words.contains(#[trigger] strs(parts@)[i]),
{
    let mut i: usize = 0;
    while i < parts.len()
        invariant
            i <= parts.len(),
            forall|j: int| 0 <= j < i ==> dictionary@.words.contains(#[trigger] strs(parts@)[j]),
        decreases parts.len() - i,
    {
        if !dictionary.contains(parts[i].as_str()) {
            assert(!dictionary@.words.contains(strs(parts@)[i as int]));
            return false;
        }
        i = i + 1;
    }
    true
}

/// The bonuses that `word` earns against `dictionary`.
pub fn find_perks(word: &str, dictionary: &Dictionary) -> (perks: Perks)
    ensures
        perks == perks_of(word@, dictionary@),
{
    let long = word.as_bytes().len() >= LONG_WORD;
    let hyphen = contains_char(word, '-');
    let notable = dictionary.is_notable(word);
    let multi = if contains_char(word, ' ') {
        let parts = split_tokens(word);
        all_listed(&parts, dictionary)
    } else {
        false
    };
    Perks { long, hyphen, notable, multi }
}

/// Counts `word` for the player with the totals `stats`, and writes the chat
/// line that announces it if it earned a bonus. A word without a bonus is
/// counted in silence.
pub fn score(stats: &mut PlayerStats, nickname: &str, word: &str, dictionary: &Dictionary) -> (line:
    Option<String>)
    ensures
        final(stats)@ == scored(old(stats)@, perks_of(word@, dictionary@)),
        match line {
            Some(text) => perks_of(word@, dictionary@).any() && text@ == announcement(
                nickname@,
                final(stats)@,
                perks_of(word@, dictionary@),
                word@,
            ),
            None => !perks_of(word@, dictionary@).any(),
        },
{
    let perks = find_perks(word, dictionary);
    let mut lines: Vec<String> = Vec::new();
    let ghost after = scored(stats@, perks);
    if perks.long {
        stats.longs = bumped(stats.longs);
        lines.push(write_perk("long", stats.longs));
    }
    assert(strs(lines@) == line_if(perks.long, perk_line("long"@, after.longs)));
    let ghost first = strs(lines@);
    if perks.hyphen {
        stats.hyphens = bumped(stats.hyphens);
        lines.push(write_perk("hyphen", stats.hyphens));
    }
    assert(strs(lines@) == first + line_if(perks.hyphen, perk_line("hyphen"@, after.hyphens)));
    let ghost second = strs(lines@);
    if perks.notable {
        stats.subs = bumped(stats.subs);
        lines.push(write_perk("sn", stats.subs));
    }
    assert(strs(lines@) == second + line_if(perks.notable, perk_line("sn"@, after.subs)));
    let ghost third = strs(lines@);
    if perks.multi {
        stats.multi = bumped(stats.multi);
        lines.push(write_perk("multi", stats.multi));
    }
    assert(strs(lines@) == third + line_if(perks.multi, perk_line("multi"@, after.multi)));
    stats.words = bumped(stats.words);
    if lines.len() == 0 {
        None
    } else {
        let mut text = String::from_str(nickname);
        text.append(" has placed");
        text.append(join(&lines, " \u{2014}").as_str());
        text.append(": ");
        text.append(word);
        Some(text)
    }
}

} // verus!
