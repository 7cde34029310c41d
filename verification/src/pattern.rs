//! Patterns. A query from the chat is a regular expression, and so is the
//! rule that says which characters a played word may hold. Compiling a
//! pattern, matching it against a text and replacing its matches in a text
//! are the work of the `regex` crate; what this library assumes of the three
//! is written down here.

use regex::Regex;
use vstd::prelude::*;

verus! {

/// `regex::Regex`, a compiled pattern. Nothing is known of what is inside.
#[verifier::external_type_specification]
#[verifier::external_body]
pub struct ExRegex(Regex);

/// `regex::Error`, why a pattern did not compile. Nothing is known of what is
/// inside.
#[verifier::external_type_specification]
#[verifier::external_body]
pub struct ExRegexError(regex::Error);

/// What `Regex::new` gives for `pattern`: the compiled pattern, or why it did
/// not compile.
pub uninterp spec fn regex_compiled(pattern: Seq<char>) -> Result<Regex, regex::Error>;

/// Whether the compiled pattern `re` matches somewhere in `text`, as
/// `Regex::is_match` decides it.
pub uninterp spec fn regex_is_match(re: Regex, text: Seq<char>) -> bool;

/// `text` with every match of the compiled pattern `re` replaced by
/// `replacement`, as `Regex::replace_all` gives it.
pub uninterp spec fn regex_replaced(
    re: Regex,
    text: Seq<char>,
    replacement: Seq<char>,
) -> Seq<char>;

/// `Regex::new` compiles a pattern or refuses it (a syntax error, or a program
/// above the size limit). What it gives depends on the pattern alone: it is
/// what `regex_compiled` names.
pub assume_specification[ Regex::new ](re: &str) -> (r: Result<Regex, regex::Error>)
    ensures
        r == regex_compiled(re@),
;

/// `Regex::is_match` depends on the compiled pattern and the text alone: it
/// returns what `regex_is_match` names.
pub assume_specification[ Regex::is_match ](re: &Regex, haystack: &str) -> (b: bool)
    ensures
        b == regex_is_match(*re, haystack@),
;

/// `Regex::replace_all` with a text as the replacement depends on the compiled
/// pattern and the two texts alone: it returns what `regex_replaced` names.
#[verifier::external_body]
fn replace_all(re: &Regex, text: &str, replacement: &str) -> (out: String)
    ensures
        out@ == regex_replaced(*re, text@, replacement@),
{
    re.replace_all(text, replacement).into_owned()
}

/// The pattern of the characters that no played word may hold: everything but
/// the lower-case letters `a` to `z`, the hyphen, the apostrophe and the
/// space.
pub const WORD_PATTERN: &'static str = "[^a-z-' ]";

/// Whether `pattern` compiles.
pub open spec fn pattern_compiles(pattern: Seq<char>) -> bool {
    regex_compiled(pattern) is Ok
}

/// Whether `pattern` compiles and matches somewhere in `text`.
pub open spec fn pattern_matches(pattern: Seq<char>, text: Seq<char>) -> bool {
    regex_compiled(pattern) matches Ok(re) && regex_is_match(re, text)
}

/// `word` without what `compiled` matches; nothing if the pattern did not
/// compile.
pub open spec fn stripped(compiled: Result<Regex, regex::Error>, word: Seq<char>) -> Option<
    Seq<char>,
> {
    match compiled {
        Ok(re) => Some(regex_replaced(re, word, Seq::empty())),
        Err(_) => None,
    }
}

/// `word` without the characters that no played word may hold; nothing if
/// `WORD_PATTERN` does not compile.
pub open spec fn sanitized(word: Seq<char>) -> Option<Seq<char>> {
    stripped(regex_compiled(WORD_PATTERN@), word)
}

/// `word` without what `compiled` matches; `None` if the pattern did not
/// compile.
pub fn strip(compiled: Result<Regex, regex::Error>, word: &str) -> (out: Option<String>)
    ensures
        stripped(compiled, word@) == match out {
            Some(text) => Some(text@),
            None => None,
        },
{
    match compiled {
        Ok(re) => {
            let empty = "";
            assert(empty@ == Seq::<char>::empty()) by {
                reveal_strlit("");
            }
            Some(replace_all(&re, word, empty))
        },
        Err(_) => None,
    }
}

/// `word` without the characters that no played word may hold; `None` if
/// `WORD_PATTERN` does not compile.
pub fn sanitize(word: &str) -> (out: Option<String>)
    ensures
        sanitized(word@) == match out {
            Some(text) => Some(text@),
            None => None,
        },
{
    strip(Regex::new(WORD_PATTERN), word)
}

} // verus!
