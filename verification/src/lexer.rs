//! Splitting a line of source text into words: a comment is cut off, and
//! what remains is divided at white space.

use vstd::prelude::*;
use crate::text::chars_of;

verus! {

/// Whether `c` is white space: one of the characters that Unicode gives the
/// property `White_Space`.
pub open spec fn is_space(c: char) -> bool {
    let u = c as u32;
    ||| 0x09 <= u <= 0x0D
    ||| u == 0x20
    ||| u == 0x85
    ||| u == 0xA0
    ||| u == 0x1680
    ||| 0x2000 <= u <= 0x200A
    ||| u == 0x2028
    ||| u == 0x2029
    ||| u == 0x202F
    ||| u == 0x205F
    ||| u == 0x3000
}

/// Whether `c` is white space.
pub fn is_space_char(c: char) -> (r: bool)
    ensures
        r == is_space(c),
{
    let u = c as u32;
    (0x09 <= u && u <= 0x0D) || u == 0x20 || u == 0x85 || u == 0xA0 || u == 0x1680 || (0x2000 <= u
        && u <= 0x200A) || u == 0x2028 || u == 0x2029 || u == 0x202F || u == 0x205F || u == 0x3000
}

/// Whether a comment begins at position `i` of the line: two slashes stand
/// there.
pub open spec fn comment_at(line: Seq<char>, i: int) -> bool {
    0 <= i && i + 1 < line.len() && line[i] == '/' && line[i + 1] == '/'
}

/// The position of the first comment that begins at `from` or later, or
/// the length of the line if there is none.
pub open spec fn comment_start(line: Seq<char>, from: int) -> int
    decreases line.len() - from,
{
    if from >= line.len() {
        line.len() as int
    } else if comment_at(line, from) {
        from
    } else {
        comment_start(line, from + 1)
    }
}

/// The line without its comment.
pub open spec fn strip_comment(line: Seq<char>) -> Seq<char> {
    line.subrange(0, comment_start(line, 0))
}

/// The comment of a line begins where two slashes stand for the first
/// time: no comment begins before `comment_start`, and one begins there
/// unless the line has none.
pub proof fn law_comment_start(line: Seq<char>, from: int)
    requires
        0 <= from <= line.len(),
    ensures
        from <= comment_start(line, from) <= line.len(),
        forall|i: int| from <= i < comment_start(line, from) ==> !comment_at(line, i),
        comment_start(line, from) < line.len() ==> comment_at(line, comment_start(line, from)),
    decreases line.len() - from,
{
    if from < line.len() && !comment_at(line, from) {
        law_comment_start(line, from + 1);
    }
}

/// The number of characters from position `from` up to the next white
/// space or the end of the text.
pub open spec fn word_len(s: Seq<char>, from: int) -> nat
    decreases s.len() - from,
{
    if 0 <= from < s.len() && !is_space(s[from]) {
        1 + word_len(s, from + 1)
    } else {
        0
    }
}

/// A word ends inside the text, and no character of it is white space.
pub proof fn lemma_word_len(s: Seq<char>, from: int)
    requires
        0 <= from <= s.len(),
    ensures
        from + word_len(s, from) <= s.len(),
        forall|i: int| from <= i < from + word_len(s, from) ==> !is_space(s[i]),
        from + word_len(s, from) < s.len() ==> is_space(s[from + word_len(s, from)]),
    decreases s.len() - from,
{
    if from < s.len() && !is_space(s[from]) {
        lemma_word_len(s, from + 1);
    }
}

/// The words of the text from position `from` on: the longest runs of
/// characters that are not white space, in order.
pub open spec fn words_from(s: Seq<char>, from: int) -> Seq<Seq<char>>
    decreases s.len() - from,
{
    if from < 0 || from >= s.len() {
        Seq::<Seq<char>>::empty()
    } else if is_space(s[from]) {
        words_from(s, from + 1)
    } else {
        let end = from + 1 + word_len(s, from + 1);
        proof {
            lemma_word_len(s, from + 1);
        }
        seq![s.subrange(from, end)] + words_from(s, end)
    }
}

/// The words of a text.
pub open spec fn words(s: Seq<char>) -> Seq<Seq<char>> {
    words_from(s, 0)
}

/// The words of a line of source text: those before its comment.
pub open spec fn line_words(line: Seq<char>) -> Seq<Seq<char>> {
    words(strip_comment(line))
}

/// Whether a text is a word: it is not empty and holds no white space.
pub open spec fn is_plain_word(w: Seq<char>) -> bool {
    w.len() > 0 && forall|i: int| 0 <= i < w.len() ==> !is_space(#[trigger] w[i])
}

/// Whatever the division of a text into words yields is a word.
pub proof fn law_words_hold_no_space(s: Seq<char>, from: int)
    requires
        0 <= from <= s.len(),
    ensures
        forall|k: int|
            0 <= k < words_from(s, from).len() ==> is_plain_word(
                #[trigger] words_from(s, from)[k],
            ),
    decreases s.len() - from,
{
    if from >= s.len() {
        assert(words_from(s, from) =~= Seq::<Seq<char>>::empty());
    } else {
        if is_space(s[from]) {
            law_words_hold_no_space(s, from + 1);
            assert(words_from(s, from) == words_from(s, from + 1));
        } else {
            let end = from + 1 + word_len(s, from + 1);
            lemma_word_len(s, from + 1);
            law_words_hold_no_space(s, end);
            let first = s.subrange(from, end);
            let rest = words_from(s, end);
            assert(words_from(s, from) == seq![first] + rest);
            assert(is_plain_word(first)) by {
                assert forall|i: int| 0 <= i < first.len() implies !is_space(
                    #[trigger] first[i],
                ) by {
                    assert(first[i] == s[from + i]);
                }
            }
            assert forall|k: int| 0 <= k < words_from(s, from).len() implies is_plain_word(
                #[trigger] words_from(s, from)[k],
            ) by {
                if k > 0 {
                    assert(words_from(s, from)[k] == rest[k - 1]);
                }
            }
        }
    }
}

/// The texts of a sequence of strings.
pub open spec fn texts(v: Seq<String>) -> Seq<Seq<char>> {
    Seq::new(v.len(), |i: int| v[i]@)
}

/// The position at which the comment of a line begins, or the line's
/// length if it has none.
fn find_comment(chars: &Vec<char>) -> (end: usize)
    ensures
        end == comment_start(chars@, 0),
        end <= chars@.len(),
{
    let n = chars.len();
    let mut i: usize = 0;
    while i < n
        invariant
            n == chars@.len(),
            i <= n,
            comment_start(chars@, 0) == comment_start(chars@, i as int),
        decreases n - i,
    {
        if chars[i] == '/' && i + 1 < n && chars[i + 1] == '/' {
            return i;
        }
        i += 1;
    }
    i
}

/// The words of a text without a comment.
fn split_words(text: &str) -> (found: Vec<String>)
    ensures
        texts(found@) == words(text@),
{
    let chars = chars_of(text);
    let n = chars.len();
    let mut found: Vec<String> = Vec::new();
    let mut i: usize = 0;
    while i < n
        invariant
            chars@ == text@,
            n == chars@.len(),
            i <= n,
            texts(found@) + words_from(text@, i as int) == words(text@),
        decreases n - i,
    {
        if is_space_char(chars[i]) {
            i += 1;
        } else {
            let mut j: usize = i + 1;
            while j < n && !is_space_char(chars[j])
                invariant
                    chars@ == text@,
                    n == chars@.len(),
                    i < j <= n,
                    word_len(text@, i + 1) == (j - (i + 1)) + word_len(text@, j as int),
                decreases n - j,
            {
                j += 1;
            }
            let word = String::from_str(text.substring_char(i, j));
            let ghost before = texts(found@);
            found.push(word);
            proof {
                assert(word_len(text@, j as int) == 0);
                assert(texts(found@) =~= before + seq![text@.subrange(i as int, j as int)]);
                assert(texts(found@) + words_from(text@, j as int) =~= before + (seq![
                    text@.subrange(i as int, j as int),
                ] + words_from(text@, j as int)));
            }
            i = j;
        }
    }
    assert(texts(found@) + Seq::<Seq<char>>::empty() =~= texts(found@));
    found
}

/// The words of a line of source text: the comment, if there is one, is
/// cut off, and what stands before it is divided at white space.
pub fn tokenize(line: &str) -> (found: Vec<String>)
    ensures
        texts(found@) == line_words(line@),
{
    let chars = chars_of(line);
    let end = find_comment(&chars);
    split_words(line.substring_char(0, end))
}

} // verus!
