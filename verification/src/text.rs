//! Text helpers: every word, syllable and chat line of the assistant is a
//! sequence of characters, and the functions here compute on that sequence.

use vstd::prelude::*;

verus! {

/// The separator of the space-separated parts of a word or chat line.
pub open spec fn is_space(c: char) -> bool {
    c == ' '
}

/// The views of a sequence of strings.
pub open spec fn strs(v: Seq<String>) -> Seq<Seq<char>> {
    Seq::new(v.len(), |i: int| v[i]@)
}

/// `needle` stands in `hay` at position `k`.
pub open spec fn occurs_at(needle: Seq<char>, hay: Seq<char>, k: int) -> bool {
    &&& 0 <= k
    &&& k + needle.len() <= hay.len()
    &&& hay.subrange(k, k + needle.len()) == needle
}

/// `needle` stands somewhere in `hay`.
pub open spec fn is_substring(needle: Seq<char>, hay: Seq<char>) -> bool {
    exists|k: int| occurs_at(needle, hay, k)
}

/// The ten decimal digits.
pub open spec fn digit(d: nat) -> char {
    seq!['0', '1', '2', '3', '4', '5', '6', '7', '8', '9'][d as int]
}

/// The decimal numeral of `n`, without leading zeros.
pub open spec fn decimal_digits(n: nat) -> Seq<char>
    decreases n,
{
    if n < 10 {
        seq![digit(n)]
    } else {
        decimal_digits(n / 10).push(digit(n % 10))
    }
}

/// `parts` written one after another with `sep` between neighbours.
pub open spec fn joined(parts: Seq<Seq<char>>, sep: Seq<char>) -> Seq<char>
    decreases parts.len(),
{
    if parts.len() == 0 {
        Seq::empty()
    } else if parts.len() == 1 {
        parts[0]
    } else {
        joined(parts.drop_last(), sep) + sep + parts.last()
    }
}

/// The space-separated parts of `s`: a text without a space is its own single
/// part, and every space ends one part and begins the next (which may be empty).
pub open spec fn tokens(s: Seq<char>) -> Seq<Seq<char>>
    decreases s.len(),
{
    if s.len() == 0 {
        seq![Seq::empty()]
    } else {
        let before = tokens(s.drop_last());
        if is_space(s.last()) {
            before.push(Seq::empty())
        } else {
            before.update(before.len() - 1, before.last().push(s.last()))
        }
    }
}

/// The position of the first space of `s`, or the length of `s` if it has no
/// space.
pub open spec fn first_space(s: Seq<char>) -> int
    decreases s.len(),
{
    if s.len() == 0 || is_space(s[0]) {
        0
    } else {
        1 + first_space(s.drop_first())
    }
}

/// What stands before the first space of a chat line: its command word.
pub open spec fn head_word(line: Seq<char>) -> Seq<char> {
    line.take(first_space(line))
}

/// What stands after the first space of a chat line: its query. A line
/// without a space has the empty query.
pub open spec fn tail_text(line: Seq<char>) -> Seq<char> {
    if first_space(line) < line.len() {
        line.skip(first_space(line) + 1)
    } else {
        Seq::empty()
    }
}

/// A command word begins with the mark `!`.
pub open spec fn is_marked(word: Seq<char>) -> bool {
    word.len() > 0 && word[0] == '!'
}

/// The first space is where no space stands before and a space, or the end,
/// stands at.
pub proof fn lemma_first_space(s: Seq<char>, i: int)
    requires
        0 <= i <= s.len(),
        forall|j: int| 0 <= j < i ==> !is_space(#[trigger] s[j]),
        i < s.len() ==> is_space(s[i]),
    ensures
        first_space(s) == i,
    decreases s.len(),
{
    if i > 0 {
        lemma_first_space(s.drop_first(), i - 1);
    }
}

/// Splitting at the spaces undoes joining with a space: the parts of a text,
/// joined with a space, are the text again; there is always one part at least,
/// and no part holds a space.
pub proof fn lemma_tokens_rejoin(s: Seq<char>)
    ensures
        tokens(s).len() >= 1,
        joined(tokens(s), seq![' ']) == s,
        forall|i: int| 0 <= i < tokens(s).len() ==> !(#[trigger] tokens(s)[i]).contains(' '),
    decreases s.len(),
{
    if s.len() > 0 {
        let front = s.drop_last();
        lemma_tokens_rejoin(front);
        let before = tokens(front);
        let sep = seq![' '];
        if is_space(s.last()) {
            let parts = before.push(Seq::empty());
            assert(parts.drop_last() == before);
        } else {
            let last = before.len() - 1;
            let grown = before.last().push(s.last());
            let parts = before.update(last, grown);
            if before.len() > 1 {
                assert(parts.drop_last() == before.drop_last());
                assert(joined(before, sep) == joined(before.drop_last(), sep) + sep
                    + before.last());
                assert(joined(before.drop_last(), sep) + sep + grown == (joined(
                    before.drop_last(),
                    sep,
                ) + sep + before.last()).push(s.last()));
            }
        }
    }
}

/// What stands in a text stands in every text around it.
pub proof fn lemma_substring_in_concat(
    needle: Seq<char>,
    before: Seq<char>,
    hay: Seq<char>,
    after: Seq<char>,
)
    requires
        is_substring(needle, hay),
    ensures
        is_substring(needle, before + hay + after),
{
    let k = choose|k: int| occurs_at(needle, hay, k);
    let whole = before + hay + after;
    assert(whole.subrange(before.len() + k, before.len() + k + needle.len()) == hay.subrange(
        k,
        k + needle.len(),
    ));
    assert(occurs_at(needle, whole, before.len() + k));
}

/// Every part stands in the text that the parts are joined to.
pub proof fn lemma_part_in_joined(parts: Seq<Seq<char>>, sep: Seq<char>, i: int)
    requires
        0 <= i < parts.len(),
    ensures
        is_substring(parts[i], joined(parts, sep)),
    decreases parts.len(),
{
    let empty = Seq::<char>::empty();
    if parts.len() == 1 {
        assert(parts[0].subrange(0, parts[0].len() as int) == parts[0]);
        assert(occurs_at(parts[0], parts[0], 0));
    } else if i == parts.len() - 1 {
        assert(parts.last().subrange(0, parts.last().len() as int) == parts.last());
        assert(occurs_at(parts.last(), parts.last(), 0));
        lemma_substring_in_concat(
            parts.last(),
            joined(parts.drop_last(), sep) + sep,
            parts.last(),
            empty,
        );
    } else {
        lemma_part_in_joined(parts.drop_last(), sep, i);
        lemma_substring_in_concat(
            parts[i],
            empty,
            joined(parts.drop_last(), sep),
            sep + parts.last(),
        );
        assert(empty + joined(parts.drop_last(), sep) + (sep + parts.last()) == joined(
            parts,
            sep,
        ));
    }
}

/// `String::push` appends `ch` to the text: the text afterwards is the text
/// before with `ch` at its end.
pub assume_specification[ String::push ](s: &mut String, ch: char)
    ensures
        final(s)@ == old(s)@.push(ch),
;

/// The characters of `s`, in order.
pub fn to_chars(s: &str) -> (out: Vec<char>)
    ensures
        out@ == s@,
{
    let mut out: Vec<char> = Vec::new();
    for c in it: s.chars()
        invariant
            out@ == it.seq().take(it.index() as int),
            it.seq() == s@,
    {
        out.push(c);
    }
    out
}

/// The text made of the characters `chars[from..to]`.
pub fn from_chars(chars: &Vec<char>, from: usize, to: usize) -> (out: String)
    requires
        from <= to <= chars.len(),
    ensures
        out@ == chars@.subrange(from as int, to as int),
{
    let mut out = String::new();
    let mut i: usize = from;
    while i < to
        invariant
            from <= i <= to <= chars.len(),
            out@ == chars@.subrange(from as int, i as int),
        decreases to - i,
    {
        out.push(chars[i]);
        i = i + 1;
    }
    out
}

/// Whether `a` and `b` are the same text.
pub fn same(a: &str, b: &str) -> (r: bool)
    ensures
        r == (a@ == b@),
{
    let x = to_chars(a);
    let y = to_chars(b);
    same_chars(&x, &y)
}

/// Whether `a` and `b` hold the same characters.
pub fn same_chars(a: &Vec<char>, b: &Vec<char>) -> (r: bool)
    ensures
        r == (a@ == b@),
{
    if a.len() != b.len() {
        return false;
    }
    let mut i: usize = 0;
    while i < a.len()
        invariant
            a.len() == b.len(),
            i <= a.len(),
            a@.take(i as int) == b@.take(i as int),
        decreases a.len() - i,
    {
        if a[i] != b[i] {
            return false;
        }
        i = i + 1;
    }
    assert(a@.take(a.len() as int) == a@);
    assert(b@.take(b.len() as int) == b@);
    true
}

/// Whether `needle` stands in `hay` at position `k`.
fn matches_at(hay: &Vec<char>, needle: &Vec<char>, k: usize) -> (r: bool)
    requires
        k + needle.len() <= hay.len(),
    ensures
        r == occurs_at(needle@, hay@, k as int),
{
    let mut j: usize = 0;
    while j < needle.len()
        invariant
            j <= needle.len(),
            k + needle.len() <= hay.len(),
            hay@.subrange(k as int, k + j) == needle@.take(j as int),
        decreases needle.len() - j,
    {
        if hay[k + j] != needle[j] {
            return false;
        }
        assert(hay@.subrange(k as int, k + j + 1) == hay@.subrange(k as int, k + j).push(
            hay@[k + j],
        ));
        j = j + 1;
    }
    assert(needle@.take(needle.len() as int) == needle@);
    true
}

/// Whether `needle` stands somewhere in `hay`.
pub fn contains_chars(hay: &Vec<char>, needle: &Vec<char>) -> (r: bool)
    ensures
        r == is_substring(needle@, hay@),
{
    if needle.len() > hay.len() {
        return false;
    }
    let last: usize = hay.len() - needle.len();
    let mut k: usize = 0;
    loop
        invariant
            last == hay.len() - needle.len(),
            needle.len() <= hay.len(),
            k <= last,
            forall|i: int| 0 <= i < k ==> !occurs_at(needle@, hay@, i),
        decreases last - k,
    {
        if matches_at(hay, needle, k) {
            return true;
        }
        if k == last {
            return false;
        }
        k = k + 1;
    }
}

/// Whether `needle` stands somewhere in `hay`; the empty text stands in every text.
pub fn contains(hay: &str, needle: &str) -> (r: bool)
    ensures
        r == is_substring(needle@, hay@),
{
    let h = to_chars(hay);
    let n = to_chars(needle);
    contains_chars(&h, &n)
}

/// Whether `hay` holds the character `c`.
pub fn contains_char(hay: &str, c: char) -> (r: bool)
    ensures
        r == hay@.contains(c),
{
    let h = to_chars(hay);
    let mut i: usize = 0;
    while i < h.len()
        invariant
            i <= h.len(),
            h@ == hay@,
            forall|j: int| 0 <= j < i ==> h@[j] != c,
        decreases h.len() - i,
    {
        if h[i] == c {
            return true;
        }
        i = i + 1;
    }
    false
}

/// The character of a decimal digit.
fn digit_char(d: u64) -> (c: char)
    requires
        d < 10,
    ensures
        c == digit(d as nat),
{
    if d == 0 {
        '0'
    } else if d == 1 {
        '1'
    } else if d == 2 {
        '2'
    } else if d == 3 {
        '3'
    } else if d == 4 {
        '4'
    } else if d == 5 {
        '5'
    } else if d == 6 {
        '6'
    } else if d == 7 {
        '7'
    } else if d == 8 {
        '8'
    } else {
        '9'
    }
}

/// The decimal numeral of `n`.
pub fn decimal(n: u64) -> (out: String)
    ensures
        out@ == decimal_digits(n as nat),
    decreases n,
{
    if n < 10 {
        let mut out = String::new();
        out.push(digit_char(n));
        out
    } else {
        let mut out = decimal(n / 10);
        out.push(digit_char(n % 10));
        out
    }
}

/// `parts` written one after another with `sep` between neighbours.
pub fn join(parts: &Vec<String>, sep: &str) -> (out: String)
    ensures
        out@ == joined(strs(parts@), sep@),
{
    let mut out = String::new();
    let mut i: usize = 0;
    while i < parts.len()
        invariant
            i <= parts.len(),
            out@ == joined(strs(parts@).take(i as int), sep@),
        decreases parts.len() - i,
    {
        proof {
            let upto = strs(parts@).take(i + 1);
            assert(upto.drop_last() == strs(parts@).take(i as int));
        }
        if i > 0 {
            out.append(sep);
        }
        out.append(parts[i].as_str());
        i = i + 1;
    }
    assert(strs(parts@).take(parts.len() as int) == strs(parts@));
    out
}

/// The space-separated parts of `s`.
pub fn split_tokens(s: &str) -> (parts: Vec<String>)
    ensures
        strs(parts@) == tokens(s@),
{
    let chars = to_chars(s);
    let mut parts: Vec<String> = Vec::new();
    let mut current = String::new();
    let mut i: usize = 0;
    while i < chars.len()
        invariant
            i <= chars.len(),
            chars@ == s@,
            strs(parts@).push(current@) == tokens(chars@.take(i as int)),
        decreases chars.len() - i,
    {
        let ghost done = strs(parts@);
        let ghost open = current@;
        proof {
            let upto = chars@.take(i + 1);
            assert(upto.drop_last() == chars@.take(i as int));
        }
        if chars[i] == ' ' {
            parts.push(current);
            current = String::new();
        } else {
            current.push(chars[i]);
            assert(done.push(current@) == done.push(open).update(
                done.len() as int,
                open.push(chars@[i as int]),
            ));
        }
        i = i + 1;
    }
    assert(chars@.take(chars.len() as int) == chars@);
    parts.push(current);
    parts
}

/// The command word and the query of a chat line: what stands before its
/// first space, and what stands after it.
pub fn split_command(line: &str) -> (parts: (String, String))
    ensures
        parts.0@ == head_word(line@),
        parts.1@ == tail_text(line@),
{
    let chars = to_chars(line);
    let mut i: usize = 0;
    while i < chars.len()
        invariant
            i <= chars.len(),
            chars@ == line@,
            forall|j: int| 0 <= j < i ==> !is_space(#[trigger] chars@[j]),
        decreases chars.len() - i,
    {
        if chars[i] == ' ' {
            proof {
                lemma_first_space(line@, i as int);
            }
            let head = from_chars(&chars, 0, i);
            let tail = from_chars(&chars, i + 1, chars.len());
            return (head, tail);
        }
        i = i + 1;
    }
    proof {
        lemma_first_space(line@, i as int);
    }
    let head = from_chars(&chars, 0, chars.len());
    (head, String::new())
}

/// A command word without the `!` that marks it; `None` for a word that does
/// not begin with the mark.
pub fn strip_mark(word: &str) -> (rest: Option<String>)
    ensures
        match rest {
            Some(r) => is_marked(word@) && r@ == word@.skip(1),
            None => !is_marked(word@),
        },
{
    let chars = to_chars(word);
    if chars.len() > 0 && chars[0] == '!' {
        Some(from_chars(&chars, 1, chars.len()))
    } else {
        None
    }
}

} // verus!
