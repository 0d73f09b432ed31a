//! Reading exemplar character lists: whitespace-separated clusters, with
//! `{...}` around clusters of several characters.
use vstd::prelude::*;

use crate::text::{push_char, string_of, strings_view};
use crate::unicode::{nfc, nfc_of};

verus! {

/// Whether a character has the Unicode White_Space property.
pub open spec fn is_white_space(c: char) -> bool {
    let n = c as u32;
    (0x09 <= n && n <= 0x0D) || n == 0x20 || n == 0x85 || n == 0xA0 || n == 0x1680
        || (0x2000 <= n && n <= 0x200A) || n == 0x2028 || n == 0x2029 || n == 0x202F
        || n == 0x205F || n == 0x3000
}

/// Whether a character has the Unicode White_Space property.
pub fn white_space(c: char) -> (r: bool)
    ensures
        r == is_white_space(c),
{
    let n = c as u32;
    (0x09 <= n && n <= 0x0D) || n == 0x20 || n == 0x85 || n == 0xA0 || n == 0x1680
        || (0x2000 <= n && n <= 0x200A) || n == 0x2028 || n == 0x2029 || n == 0x202F
        || n == 0x205F || n == 0x3000
}

/// The words of the first `n` characters, and the word still open.
pub open spec fn split_prefix(s: Seq<char>, n: int) -> (Seq<Seq<char>>, Seq<char>)
    decreases n,
{
    if n <= 0 {
        (Seq::empty(), Seq::empty())
    } else {
        let (words, current) = split_prefix(s, n - 1);
        if is_white_space(s[n - 1]) {
            if current.len() > 0 { (words.push(current), Seq::empty()) } else { (words, current) }
        } else {
            (words, current.push(s[n - 1]))
        }
    }
}

/// The maximal runs of characters without white space, in order.
pub open spec fn split_white_space(s: Seq<char>) -> Seq<Seq<char>> {
    let (words, current) = split_prefix(s, s.len() as int);
    if current.len() > 0 { words.push(current) } else { words }
}

/// The text without its leading `{` characters.
pub open spec fn strip_open_braces(s: Seq<char>) -> Seq<char>
    decreases s.len(),
{
    if s.len() > 0 && s[0] == '{' { strip_open_braces(s.drop_first()) } else { s }
}

/// The text without its trailing `}` characters.
pub open spec fn strip_close_braces(s: Seq<char>) -> Seq<char>
    decreases s.len(),
{
    if s.len() > 0 && s.last() == '}' { strip_close_braces(s.drop_last()) } else { s }
}

/// A cluster with the braces around it taken off, where it is longer than
/// one character.
pub open spec fn unwrap_cluster(s: Seq<char>) -> Seq<char> {
    if s.len() > 1 { strip_close_braces(strip_open_braces(s)) } else { s }
}

/// The strings that one word stands for: the cluster, and its NFC form
/// where that differs; empty strings are dropped.
pub open spec fn word_items(word: Seq<char>) -> Seq<Seq<char>> {
    let s = unwrap_cluster(word);
    let n = nfc_of(s);
    let both = if n != s { seq![s, n] } else { seq![s] };
    both.filter(|x: Seq<char>| x.len() > 0)
}

/// The strings of the first `n` words.
pub open spec fn items_of_words(words: Seq<Seq<char>>, n: int) -> Seq<Seq<char>>
    decreases n,
{
    if n <= 0 { Seq::empty() } else { items_of_words(words, n - 1) + word_items(words[n - 1]) }
}

/// The exemplar strings of a list.
pub open spec fn parse_exemplars(s: Seq<char>) -> Seq<Seq<char>> {
    let words = split_white_space(s);
    items_of_words(words, words.len() as int)
}

/// A mark exemplar, after a dotted circle where it does not start with one.
pub open spec fn with_dotted_circle(s: Seq<char>) -> Seq<char> {
    if s.len() > 0 && s[0] == '\u{25CC}' { s } else { seq!['\u{25CC}'] + s }
}

/// Splits a text into its maximal runs of characters without white space.
pub fn split_words(s: &str) -> (r: Vec<String>)
    ensures
        strings_view(r@) == split_white_space(s@),
{
    let n = s.unicode_len();
    let mut words: Vec<String> = Vec::new();
    let mut current = String::new();
    let mut i: usize = 0;
    while i < n
        invariant
            i <= n,
            n == s@.len(),
            (strings_view(words@), current@) == split_prefix(s@, i as int),
        decreases n - i,
    {
        let c = s.get_char(i);
        if white_space(c) {
            if current.unicode_len() > 0 {
                let ghost before = words@;
                let ghost word = current@;
                words.push(current);
                current = String::new();
                assert(strings_view(words@) =~= strings_view(before).push(word));
            }
        } else {
            push_char(&mut current, c);
        }
        i = i + 1;
    }
    if current.unicode_len() > 0 {
        let ghost before = words@;
        let ghost word = current@;
        words.push(current);
        assert(strings_view(words@) =~= strings_view(before).push(word));
    }
    words
}

/// Takes the braces off a cluster longer than one character.
fn unwrap(word: &str) -> (r: String)
    ensures
        r@ == unwrap_cluster(word@),
{
    let n = word.unicode_len();
    if n <= 1 {
        return string_of(word);
    }
    let mut start: usize = 0;
    assert(word@.subrange(0, n as int) =~= word@);
    while start < n && word.get_char(start) == '{'
        invariant
            start <= n,
            n == word@.len(),
            strip_open_braces(word@) == strip_open_braces(word@.subrange(start as int, n as int)),
        decreases n - start,
    {
        assert(word@.subrange(start as int, n as int).drop_first() =~= word@.subrange(start as int + 1, n as int));
        start = start + 1;
    }
    assert(strip_open_braces(word@.subrange(start as int, n as int)) == word@.subrange(start as int, n as int));
    let ghost opened = word@.subrange(start as int, n as int);
    let mut end: usize = n;
    while end > start && word.get_char(end - 1) == '}'
        invariant
            start <= end <= n,
            n == word@.len(),
            opened == word@.subrange(start as int, n as int),
            strip_close_braces(opened) == strip_close_braces(word@.subrange(start as int, end as int)),
        decreases end - start,
    {
        assert(word@.subrange(start as int, end as int).drop_last() =~= word@.subrange(start as int, end as int - 1));
        end = end - 1;
    }
    assert(strip_close_braces(word@.subrange(start as int, end as int)) == word@.subrange(start as int, end as int));
    string_of(word.substring_char(start, end))
}

/// The exemplar strings of a list: each whitespace-separated cluster with
/// its braces taken off, followed by its NFC form where that differs;
/// empty strings are dropped.
pub fn parse_chars(chars: &str) -> (r: Vec<String>)
    ensures
        strings_view(r@) == parse_exemplars(chars@),
{
    let words = split_words(chars);
    let ghost wv = strings_view(words@);
    let mut r: Vec<String> = Vec::new();
    let mut i: usize = 0;
    while i < words.len()
        invariant
            i <= words.len(),
            wv == strings_view(words@),
            strings_view(r@) == items_of_words(wv, i as int),
        decreases words.len() - i,
    {
        let s = unwrap(words[i].as_str());
        let normalized = nfc(s.as_str());
        let ghost sv = s@;
        let ghost nv = normalized@;
        let ghost before = r@;
        let differs = !normalized.eq(&s);
        if s.unicode_len() > 0 {
            r.push(s);
        }
        if differs && normalized.unicode_len() > 0 {
            r.push(normalized);
        }
        proof {
            let both = if nv != sv { seq![sv, nv] } else { seq![sv] };
            assert(wv[i as int] == words@[i as int]@);
            reveal_with_fuel(Seq::filter, 3);
            assert(both.filter(|x: Seq<char>| x.len() > 0) =~= strings_view(r@).subrange(before.len() as int, r@.len() as int)) by {
                assert(both.drop_last().drop_last() =~= Seq::<Seq<char>>::empty() || both.drop_last() =~= Seq::<Seq<char>>::empty());
            }
            assert(strings_view(r@) =~= strings_view(before) + word_items(wv[i as int]));
        }
        i = i + 1;
    }
    r
}

/// The mark exemplars of a list, each after a dotted circle.
pub fn parse_marks(marks: &str) -> (r: Vec<String>)
    ensures
        strings_view(r@) == split_white_space(marks@).map_values(|s: Seq<char>| with_dotted_circle(s)),
{
    let words = split_words(marks);
    let ghost target = split_white_space(marks@).map_values(|s: Seq<char>| with_dotted_circle(s));
    let mut r: Vec<String> = Vec::new();
    let mut i: usize = 0;
    while i < words.len()
        invariant
            i <= words.len(),
            strings_view(words@) == split_white_space(marks@),
            target == split_white_space(marks@).map_values(|s: Seq<char>| with_dotted_circle(s)),
            strings_view(r@) == target.take(i as int),
        decreases words.len() - i,
    {
        let word = &words[i];
        assert(split_white_space(marks@)[i as int] == word@);
        let starts = word.as_str().unicode_len() > 0 && word.as_str().get_char(0) == '\u{25CC}';
        let item = if starts {
            word.clone()
        } else {
            let mut s = String::new();
            push_char(&mut s, '\u{25CC}');
            s.append(word.as_str());
            assert(s@ =~= seq!['\u{25CC}'] + word@);
            s
        };
        let ghost before = r@;
        r.push(item);
        assert(strings_view(r@) =~= strings_view(before).push(target[i as int]));
        assert(strings_view(r@) =~= target.take(i as int + 1));
        i = i + 1;
    }
    assert(target.take(i as int) =~= target);
    r
}

} // verus!
