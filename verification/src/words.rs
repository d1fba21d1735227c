//! Splitting a line into words at white space.

use vstd::prelude::*;
use vstd::string::*;
use crate::chars::{strings_text, to_chars};

verus! {

/// White space: the characters that Unicode gives the property `White_Space`.
pub open spec fn is_space(c: char) -> bool {
    let n = c as u32;
    ||| 0x09 <= n <= 0x0D
    ||| n == 0x20
    ||| n == 0x85
    ||| n == 0xA0
    ||| n == 0x1680
    ||| 0x2000 <= n <= 0x200A
    ||| n == 0x2028
    ||| n == 0x2029
    ||| n == 0x202F
    ||| n == 0x205F
    ||| n == 0x3000
}

/// Decides `is_space`.
pub fn is_whitespace(c: char) -> (r: bool)
    ensures
        r == is_space(c),
{
    let n: u32 = c as u32;
    (0x09 <= n && n <= 0x0D) || n == 0x20 || n == 0x85 || n == 0xA0 || n == 0x1680 || (0x2000 <= n
        && n <= 0x200A) || n == 0x2028 || n == 0x2029 || n == 0x202F || n == 0x205F || n == 0x3000
}

/// The first position from `i` on that holds no white space, or the length
/// of `s` where only white space follows.
pub open spec fn word_start(s: Seq<char>, i: int) -> int
    decreases s.len() - i,
{
    if 0 <= i < s.len() && is_space(s[i]) {
        word_start(s, i + 1)
    } else {
        i
    }
}

/// The first position from `i` on that holds white space, or the length of
/// `s` where none follows.
pub open spec fn word_end(s: Seq<char>, i: int) -> int
    decreases s.len() - i,
{
    if 0 <= i < s.len() && !is_space(s[i]) {
        word_end(s, i + 1)
    } else {
        i
    }
}

/// The words of `s` that begin at position `i` or later, in order: the
/// maximal runs of characters that are no white space.
pub open spec fn words_from(s: Seq<char>, i: int) -> Seq<Seq<char>>
    decreases s.len() - i,
{
    let a = word_start(s, i);
    let b = word_end(s, a);
    if 0 <= i && a < s.len() {
        proof {
            lemma_word_start_bounds(s, i);
            lemma_word_end_bounds(s, a);
        }
        seq![s.subrange(a, b)] + words_from(s, b)
    } else {
        Seq::empty()
    }
}

/// The words of `s`: what is left when `s` is cut at every run of white
/// space. No word is empty, and none holds white space.
pub open spec fn words(s: Seq<char>) -> Seq<Seq<char>> {
    words_from(s, 0)
}

/// `word_start` moves right, stays inside `s`, and stops on a character
/// that is no white space.
pub proof fn lemma_word_start_bounds(s: Seq<char>, i: int)
    requires
        0 <= i <= s.len(),
    ensures
        i <= word_start(s, i) <= s.len(),
        word_start(s, i) < s.len() ==> !is_space(s[word_start(s, i)]),
        forall|j: int| i <= j < word_start(s, i) ==> is_space(#[trigger] s[j]),
    decreases s.len() - i,
{
    if i < s.len() && is_space(s[i]) {
        lemma_word_start_bounds(s, i + 1);
    }
}

/// `word_end` moves right, stays inside `s`, stops on white space, and moves
/// at least one step from a character that is no white space.
pub proof fn lemma_word_end_bounds(s: Seq<char>, i: int)
    requires
        0 <= i <= s.len(),
    ensures
        i <= word_end(s, i) <= s.len(),
        word_end(s, i) < s.len() ==> is_space(s[word_end(s, i)]),
        i < s.len() && !is_space(s[i]) ==> i < word_end(s, i),
        forall|j: int| i <= j < word_end(s, i) ==> !is_space(#[trigger] s[j]),
    decreases s.len() - i,
{
    if i < s.len() && !is_space(s[i]) {
        lemma_word_end_bounds(s, i + 1);
    }
}

/// A word: text that is not empty and holds no white space.
pub open spec fn is_word(w: Seq<char>) -> bool {
    w.len() > 0 && forall|j: int| 0 <= j < w.len() ==> !is_space(#[trigger] w[j])
}

/// Every word is non-empty and free of white space.
pub proof fn lemma_words_from_shape(s: Seq<char>, i: int, k: int)
    requires
        0 <= i <= s.len(),
        0 <= k < words_from(s, i).len(),
    ensures
        is_word(words_from(s, i)[k]),
    decreases s.len() - i,
{
    let a = word_start(s, i);
    let b = word_end(s, a);
    lemma_word_start_bounds(s, i);
    lemma_word_end_bounds(s, a);
    if k > 0 {
        lemma_words_from_shape(s, b, k - 1);
    }
}

/// `word_start` in what follows a prefix is `word_start` without the
/// prefix, moved by the prefix's length.
pub proof fn lemma_word_start_shift(p: Seq<char>, s: Seq<char>, i: int)
    requires
        0 <= i <= s.len(),
    ensures
        word_start(p + s, p.len() + i) == p.len() + word_start(s, i),
    decreases s.len() - i,
{
    if i < s.len() && is_space(s[i]) {
        lemma_word_start_shift(p, s, i + 1);
    }
}

/// `word_end` in what follows a prefix is `word_end` without the prefix,
/// moved by the prefix's length.
pub proof fn lemma_word_end_shift(p: Seq<char>, s: Seq<char>, i: int)
    requires
        0 <= i <= s.len(),
    ensures
        word_end(p + s, p.len() + i) == p.len() + word_end(s, i),
    decreases s.len() - i,
{
    if i < s.len() && !is_space(s[i]) {
        lemma_word_end_shift(p, s, i + 1);
    }
}

/// The words that begin after a prefix are the words of what follows it.
pub proof fn lemma_words_from_shift(p: Seq<char>, s: Seq<char>, i: int)
    requires
        0 <= i <= s.len(),
    ensures
        words_from(p + s, p.len() + i) == words_from(s, i),
    decreases s.len() - i,
{
    let a = word_start(s, i);
    lemma_word_start_bounds(s, i);
    lemma_word_start_shift(p, s, i);
    if a < s.len() {
        let b = word_end(s, a);
        lemma_word_end_bounds(s, a);
        lemma_word_end_shift(p, s, a);
        lemma_words_from_shift(p, s, b);
        assert((p + s).subrange(p.len() + a, p.len() + b) =~= s.subrange(a, b));
    }
}

/// White space at the start of a text adds no word.
pub proof fn lemma_words_after_space(c: char, rest: Seq<char>)
    requires
        is_space(c),
    ensures
        words(seq![c] + rest) == words(rest),
{
    // The first word starts behind `c`, so the words from 0 are those from 1.
    lemma_words_from_shift(seq![c], rest, 0);
}

/// A word at the start of a text, with white space or nothing behind it, is
/// the text's first word, and the other words are those of what follows.
pub proof fn lemma_words_after_word(w: Seq<char>, rest: Seq<char>)
    requires
        is_word(w),
        rest.len() > 0 ==> is_space(rest[0]),
    ensures
        words(w + rest) == seq![w] + words(rest),
{
    lemma_word_end_run(w, rest, 0);
    lemma_words_from_shift(w, rest, 0);
    assert((w + rest).subrange(0, w.len() as int) =~= w);
}

/// Inside a word that white space or nothing follows, `word_end` is the
/// word's end.
proof fn lemma_word_end_run(w: Seq<char>, rest: Seq<char>, j: int)
    requires
        is_word(w),
        rest.len() > 0 ==> is_space(rest[0]),
        0 <= j <= w.len(),
    ensures
        word_end(w + rest, j) == w.len(),
    decreases w.len() - j,
{
    if j < w.len() {
        lemma_word_end_run(w, rest, j + 1);
    }
}

/// A word alone is its text's only word.
pub proof fn lemma_words_of_word(w: Seq<char>)
    requires
        is_word(w),
    ensures
        words(w) == seq![w],
{
    lemma_words_after_word(w, Seq::empty());
}

/// The first position at or after `i` that holds no white space.
fn skip_spaces(cs: &Vec<char>, i: usize) -> (r: usize)
    requires
        i <= cs@.len(),
    ensures
        r == word_start(cs@, i as int),
        i <= r <= cs@.len(),
{
    let mut j: usize = i;
    while j < cs.len() && is_whitespace(cs[j])
        invariant
            i <= j <= cs@.len(),
            word_start(cs@, i as int) == word_start(cs@, j as int),
        decreases cs@.len() - j,
    {
        j += 1;
    }
    j
}

/// The first position at or after `i` that holds white space.
fn skip_word(cs: &Vec<char>, i: usize) -> (r: usize)
    requires
        i <= cs@.len(),
    ensures
        r == word_end(cs@, i as int),
        i <= r <= cs@.len(),
{
    let mut j: usize = i;
    while j < cs.len() && !is_whitespace(cs[j])
        invariant
            i <= j <= cs@.len(),
            word_end(cs@, i as int) == word_end(cs@, j as int),
        decreases cs@.len() - j,
    {
        j += 1;
    }
    j
}

/// The first `limit` words of `line`, or all of them where it has fewer.
pub fn leading_words(line: &str, limit: usize) -> (r: Vec<String>)
    ensures
        r@.len() == if words(line@).len() <= limit { words(line@).len() } else { limit as nat },
        strings_text(r@) == words(line@).take(r@.len() as int),
{
    let cs = to_chars(line);
    let mut out: Vec<String> = Vec::new();
    let mut i: usize = 0;
    while i < cs.len() && out.len() < limit
        invariant
            cs@ == line@,
            i <= cs@.len(),
            out@.len() <= limit,
            words(cs@) == strings_text(out@) + words_from(cs@, i as int),
        decreases cs@.len() - i,
    {
        let a = skip_spaces(&cs, i);
        if a >= cs.len() {
            i = a;
        } else {
            let b = skip_word(&cs, a);
            proof {
                lemma_word_end_bounds(cs@, a as int);
            }
            let ghost before = strings_text(out@);
            let word = line.substring_char(a, b).to_owned();
            out.push(word);
            proof {
                assert(strings_text(out@) + words_from(cs@, b as int) =~= before + words_from(
                    cs@,
                    i as int,
                ));
            }
            i = b;
        }
    }
    out
}

} // verus!
