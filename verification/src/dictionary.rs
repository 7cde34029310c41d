//! The word list at work: searching it, picking a word to play, and removing
//! a word that the game refused.

use crate::pattern::{pattern_compiles, pattern_matches, regex_compiled, regex_is_match};
use crate::text::{
    contains_chars, decimal, decimal_digits, is_substring, join, joined, strs, to_chars,
};
use crate::types::{Dictionary, DictionaryView};
use crate::utils::{shuffle, shuffled, valid_picks};
use regex::Regex;
use vstd::prelude::*;
use vstd::seq_lib::{to_multiset_contains, to_multiset_remove};

verus! {

/// How many of the words that a search found are shown.
pub const SEARCH_LIMIT: usize = 15;

/// What a search answers.
#[derive(Debug, Clone)]
pub enum SearchResult {
    /// The query is no pattern that can be searched for.
    TooExpensive,
    /// No word matches.
    NoResult,
    /// `total` words match; `shown` holds the first of them.
    Found { shown: Vec<String>, total: usize },
}

/// The test that a word matches `re`.
pub open spec fn hit(re: Regex) -> spec_fn(Seq<char>) -> bool {
    |word: Seq<char>| regex_is_match(re, word)
}

/// The words that match `re`, in the order of the list.
pub open spec fn matching(re: Regex, words: Seq<Seq<char>>) -> Seq<Seq<char>> {
    words.filter(hit(re))
}

/// The first `SEARCH_LIMIT` of `hits`, or all of them if they are fewer.
pub open spec fn first_hits(hits: Seq<Seq<char>>) -> Seq<Seq<char>> {
    if hits.len() <= SEARCH_LIMIT {
        hits
    } else {
        hits.take(SEARCH_LIMIT as int)
    }
}

/// A word that can be played on `syllable`: it holds the syllable and has not
/// been used.
pub open spec fn playable(word: Seq<char>, syllable: Seq<char>, used: Seq<Seq<char>>) -> bool {
    is_substring(syllable, word) && !used.contains(word)
}

/// `i` is the position of the first playable word.
pub open spec fn first_playable_at(
    words: Seq<Seq<char>>,
    syllable: Seq<char>,
    used: Seq<Seq<char>>,
    i: int,
) -> bool {
    &&& 0 <= i < words.len()
    &&& playable(words[i], syllable, used)
    &&& forall|j: int| 0 <= j < i ==> !playable(#[trigger] words[j], syllable, used)
}

/// The word that a pick on `syllable` gives: the first playable word of the
/// list, or none if no word is playable.
pub open spec fn chosen_word(
    words: Seq<Seq<char>>,
    syllable: Seq<char>,
    used: Seq<Seq<char>>,
) -> Option<Seq<char>> {
    if exists|i: int| first_playable_at(words, syllable, used, i) {
        Some(words[choose|i: int| first_playable_at(words, syllable, used, i)])
    } else {
        None
    }
}

/// There is one first playable word at most, and there is one as soon as any
/// word is playable.
pub proof fn lemma_chosen_word(
    words: Seq<Seq<char>>,
    syllable: Seq<char>,
    used: Seq<Seq<char>>,
)
    ensures
        forall|i: int| #[trigger]
            first_playable_at(words, syllable, used, i) ==> chosen_word(words, syllable, used)
                == Some(words[i]),
        chosen_word(words, syllable, used) is None ==> forall|i: int|
            0 <= i < words.len() ==> !playable(#[trigger] words[i], syllable, used),
{
    assert forall|i: int| #[trigger]
        first_playable_at(words, syllable, used, i) implies chosen_word(words, syllable, used)
        == Some(words[i]) by {
        let j = choose|j: int| first_playable_at(words, syllable, used, j);
        assert(i == j);
    }
    if chosen_word(words, syllable, used) is None {
        lemma_first_playable(words, syllable, used, words.len() as int);
    }
}

/// If none of the first `n` words is the first playable one, none of them is
/// playable.
proof fn lemma_first_playable(
    words: Seq<Seq<char>>,
    syllable: Seq<char>,
    used: Seq<Seq<char>>,
    n: int,
)
    requires
        0 <= n <= words.len(),
        forall|i: int| !first_playable_at(words, syllable, used, i),
    ensures
        forall|i: int| 0 <= i < n ==> !playable(#[trigger] words[i], syllable, used),
    decreases n,
{
    if n > 0 {
        lemma_first_playable(words, syllable, used, n - 1);
        assert(!first_playable_at(words, syllable, used, n - 1));
    }
}

/// How a search on the list `pre` ends, given what compiling the query gave:
/// the answer `result` and the list `post` afterwards. A query that does not
/// compile and a search without a match leave the list as it was; a search
/// with a match reports all matches, shows the first, and shuffles the list.
pub open spec fn search_outcome(
    pre: DictionaryView,
    compiled: Result<Regex, regex::Error>,
    post: DictionaryView,
    result: SearchResult,
) -> bool {
    match compiled {
        Err(_) => result is TooExpensive && post == pre,
        Ok(re) => {
            let hits = matching(re, pre.words);
            if hits.len() == 0 {
                result is NoResult && post == pre
            } else {
                &&& result matches SearchResult::Found { shown, total }
                &&& total == hits.len()
                &&& strs(shown@) == first_hits(hits)
                &&& post.notable == pre.notable
                &&& exists|picks: Seq<usize>|
                    valid_picks(picks, pre.words.len()) && post.words == #[trigger] shuffled(
                        pre.words,
                        picks,
                    )
            }
        },
    }
}

/// The list after a search for `query` on the list `pre`: shuffled if the
/// query compiles and matches a word, as it was otherwise.
pub open spec fn after_search(pre: DictionaryView, query: Seq<char>, post: DictionaryView) -> bool {
    if regex_compiled(query) matches Ok(re) && matching(re, pre.words).len() > 0 {
        &&& post.notable == pre.notable
        &&& exists|picks: Seq<usize>|
            valid_picks(picks, pre.words.len()) && post.words == #[trigger] shuffled(
                pre.words,
                picks,
            )
    } else {
        post == pre
    }
}

/// The chat line that answers a search for `query` on the words `words`: that
/// the query is no pattern, that no word matches, or how many words match
/// with the first of them.
pub open spec fn search_reply(words: Seq<Seq<char>>, query: Seq<char>) -> Seq<char> {
    match regex_compiled(query) {
        Err(_) => "too expensive regex"@,
        Ok(re) => {
            let hits = matching(re, words);
            if hits.len() == 0 {
                "No result found for: "@ + query
            } else {
                "results("@ + decimal_digits(hits.len()) + "): "@ + joined(first_hits(hits), ", "@)
            }
        },
    }
}

/// The chat line that reports `result` for `query`.
pub open spec fn search_message(result: SearchResult, query: Seq<char>) -> Seq<char> {
    match result {
        SearchResult::TooExpensive => "too expensive regex"@,
        SearchResult::NoResult => "No result found for: "@ + query,
        SearchResult::Found { shown, total } => "results("@ + decimal_digits(total as nat) + "): "@
            + joined(strs(shown@), ", "@),
    }
}

/// The words found are the words that the query matches: every word found is
/// a word of the list that the query matches, and every word of the list that
/// the query matches is found.
pub proof fn lemma_hits_match_the_query(query: Seq<char>, words: Seq<Seq<char>>)
    requires
        pattern_compiles(query),
    ensures
        forall|i: int|
            0 <= i < matching(regex_compiled(query)->Ok_0, words).len() ==> {
                let hit = #[trigger] matching(regex_compiled(query)->Ok_0, words)[i];
                words.contains(hit) && pattern_matches(query, hit)
            },
        forall|i: int|
            0 <= i < words.len() && pattern_matches(query, #[trigger] words[i]) ==> matching(
                regex_compiled(query)->Ok_0,
                words,
            ).contains(words[i]),
{
    let re = regex_compiled(query)->Ok_0;
    let hits = matching(re, words);
    assert forall|i: int| 0 <= i < hits.len() implies words.contains(#[trigger] hits[i])
        && pattern_matches(query, hits[i]) by {
        words.lemma_filter_pred(hit(re), i);
        words.lemma_filter_contains_rev(hit(re), hits[i]);
    }
    assert forall|i: int|
        0 <= i < words.len() && pattern_matches(query, #[trigger] words[i]) implies hits.contains(
        words[i],
    ) by {
        words.lemma_filter_contains(hit(re), i);
    }
}

/// Of the words found, at most `SEARCH_LIMIT` are shown, and those shown are
/// the first found, in the order of the list.
pub proof fn lemma_first_hits(hits: Seq<Seq<char>>)
    ensures
        first_hits(hits).len() <= SEARCH_LIMIT,
        first_hits(hits).len() <= hits.len(),
        hits.len() <= SEARCH_LIMIT ==> first_hits(hits) == hits,
        forall|i: int| 0 <= i < first_hits(hits).len() ==> first_hits(hits)[i] == hits[i],
{
}

/// Removing a word takes one entry at most: the list afterwards holds the
/// word once less if it held it, and every other word as often as before. A
/// word that the list does not hold leaves the list as it is, and a word that
/// it held once is gone.
pub proof fn lemma_remove_once(words: Seq<Seq<char>>, word: Seq<char>)
    ensures
        words.remove_value(word).to_multiset() == words.to_multiset().remove(word),
        !words.contains(word) ==> words.remove_value(word) == words,
        words.to_multiset().count(word) == 1 ==> !words.remove_value(word).contains(word),
{
    broadcast use vstd::multiset::group_multiset_axioms;

    words.index_of_first_ensures(word);
    to_multiset_contains(words, word);
    if let Some(i) = words.index_of_first(word) {
        to_multiset_remove(words, i);
    }
    to_multiset_contains(words.remove_value(word), word);
}

/// A search loses no word and invents none: however it ends, the list holds
/// every word as often as before, and the notable words are the same.
pub proof fn lemma_search_keeps_words(
    pre: DictionaryView,
    compiled: Result<Regex, regex::Error>,
    post: DictionaryView,
    result: SearchResult,
)
    requires
        search_outcome(pre, compiled, post, result),
    ensures
        post.words.to_multiset() == pre.words.to_multiset(),
        post.words.len() == pre.words.len(),
        post.notable == pre.notable,
{
    if post != pre {
        let picks = choose|picks: Seq<usize>|
            valid_picks(picks, pre.words.len()) && post.words == #[trigger] shuffled(
                pre.words,
                picks,
            );
        crate::utils::lemma_shuffled_permutes(pre.words, picks);
    }
}

/// Whether `list` holds `word`.
pub fn has_word(list: &Vec<String>, word: &str) -> (r: bool)
    ensures
        r == strs(list@).contains(word@),
{
    let wanted = word.to_owned();
    let mut i: usize = 0;
    while i < list.len()
        invariant
            i <= list.len(),
            wanted@ == word@,
            forall|j: int| 0 <= j < i ==> strs(list@)[j] != word@,
        decreases list.len() - i,
    {
        if list[i] == wanted {
            assert(strs(list@)[i as int] == word@);
            return true;
        }
        i = i + 1;
    }
    false
}

impl SearchResult {
    /// The chat line that reports this result for `query`.
    pub fn message(&self, query: &str) -> (line: String)
        ensures
            line@ == search_message(*self, query@),
    {
        match self {
            SearchResult::TooExpensive => String::from_str("too expensive regex"),
            SearchResult::NoResult => {
                let mut line = String::from_str("No result found for: ");
                line.append(query);
                line
            },
            SearchResult::Found { shown, total } => {
                let mut line = String::from_str("results(");
                line.append(decimal(*total as u64).as_str());
                line.append("): ");
                line.append(join(shown, ", ").as_str());
                line
            },
        }
    }
}

impl Dictionary {
    /// Whether `word` is in the list, notable or not.
    pub fn contains(&self, word: &str) -> (r: bool)
        ensures
            r == self@.words.contains(word@),
    {
        has_word(&self.dictionary, word)
    }

    /// Whether `word` is one of the notable words.
    pub fn is_notable(&self, word: &str) -> (r: bool)
        ensures
            r == self@.notable.contains(word@),
    {
        has_word(&self.sn, word)
    }

    /// The words that match `re`: how many there are, and the first
    /// `SEARCH_LIMIT` of them in the order of the list.
    pub fn find(&self, re: &Regex) -> (found: (Vec<String>, usize))
        ensures
            found.1 == matching(*re, self@.words).len(),
            strs(found.0@) == first_hits(matching(*re, self@.words)),
    {
        let mut shown: Vec<String> = Vec::new();
        let mut total: usize = 0;
        let mut i: usize = 0;
        let ghost words = self@.words;
        proof {
            reveal(Seq::filter);
        }
        while i < self.dictionary.len()
            invariant
                i <= self.dictionary.len(),
                words == self@.words,
                words.len() == self.dictionary.len(),
                total == matching(*re, words.take(i as int)).len(),
                total <= i,
                strs(shown@) == first_hits(matching(*re, words.take(i as int))),
            decreases self.dictionary.len() - i,
        {
            proof {
                let before = words.take(i as int);
                assert(words.take(i + 1) == before.push(words[i as int]));
                before.lemma_filter_push(words[i as int], hit(*re));
            }
            if re.is_match(self.dictionary[i].as_str()) {
                if total < SEARCH_LIMIT {
                    shown.push(self.dictionary[i].clone());
                }
                total = total + 1;
            }
            i = i + 1;
        }
        assert(words.take(i as int) == words);
        (shown, total)
    }

    /// The search, once the query has been compiled or refused.
    pub fn search_with(&mut self, compiled: Result<Regex, regex::Error>) -> (result: SearchResult)
        ensures
            search_outcome(old(self)@, compiled, final(self)@, result),
    {
        match compiled {
            Err(_) => SearchResult::TooExpensive,
            Ok(re) => {
                let (shown, total) = self.find(&re);
                if total == 0 {
                    SearchResult::NoResult
                } else {
                    let ghost before = self.dictionary@;
                    shuffle(&mut self.dictionary);
                    proof {
                        let picks = choose|picks: Seq<usize>|
                            valid_picks(picks, before.len()) && self.dictionary@
                                == #[trigger] shuffled(before, picks);
                        crate::utils::lemma_shuffled_from_strs(before, picks, 0);
                        assert(self@.words == shuffled(old(self)@.words, picks));
                    }
                    SearchResult::Found { shown, total }
                }
            },
        }
    }

    /// Searches the list for the words that `query`, read as a regular
    /// expression, matches: the search ends as `search_outcome` describes for
    /// what the query compiles to. A query that does not compile, and no
    /// other, is answered by `TooExpensive`.
    pub fn search(&mut self, query: &str) -> (result: SearchResult)
        ensures
            search_outcome(old(self)@, regex_compiled(query@), final(self)@, result),
            result is TooExpensive <==> !pattern_compiles(query@),
    {
        self.search_with(Regex::new(query))
    }

    /// The first word of the list, in its current order, that holds
    /// `syllable` and is not among `used`; `None` if there is no such word.
    pub fn pick(&self, syllable: &str, used: &Vec<String>) -> (word: Option<String>)
        ensures
            chosen_word(self@.words, syllable@, strs(used@)) == match word {
                Some(w) => Some(w@),
                None => None,
            },
            match word {
                Some(w) => exists|i: int| #[trigger]
                    first_playable_at(self@.words, syllable@, strs(used@), i) && self@.words[i]
                        == w@,
                None => forall|i: int|
                    0 <= i < self@.words.len() ==> !playable(
                        #[trigger] self@.words[i],
                        syllable@,
                        strs(used@),
                    ),
            },
    {
        let needle = to_chars(syllable);
        let mut i: usize = 0;
        while i < self.dictionary.len()
            invariant
                i <= self.dictionary.len(),
                needle@ == syllable@,
                forall|j: int|
                    0 <= j < i ==> !playable(#[trigger] self@.words[j], syllable@, strs(used@)),
            decreases self.dictionary.len() - i,
        {
            let hay = to_chars(self.dictionary[i].as_str());
            if contains_chars(&hay, &needle) && !has_word(used, self.dictionary[i].as_str()) {
                proof {
                    assert(first_playable_at(self@.words, syllable@, strs(used@), i as int));
                    lemma_chosen_word(self@.words, syllable@, strs(used@));
                }
                return Some(self.dictionary[i].clone());
            }
            i = i + 1;
        }
        None
    }

    /// Removes the first entry equal to `word`; a word that is not in the
    /// list leaves it as it is.
    pub fn remove(&mut self, word: &str)
        ensures
            final(self)@.words == old(self)@.words.remove_value(word@),
            final(self)@.notable == old(self)@.notable,
    {
        let wanted = word.to_owned();
        let ghost words = self@.words;
        let mut i: usize = 0;
        while i < self.dictionary.len()
            invariant
                i <= self.dictionary.len(),
                wanted@ == word@,
                *self == *old(self),
                words == self@.words,
                forall|j: int| 0 <= j < i ==> words[j] != word@,
            decreases self.dictionary.len() - i,
        {
            if self.dictionary[i] == wanted {
                proof {
                    words.index_of_first_ensures(word@);
                    assert(words[i as int] == word@);
                }
                let _ = self.dictionary.remove(i);
                return;
            }
            i = i + 1;
        }
        proof {
            words.index_of_first_ensures(word@);
        }
    }
}

} // verus!
