//! Identifiers: which strings may name a paste, and where candidate names
//! come from.

use vstd::prelude::*;

verus! {

/// Number of words in a generated phrase.
pub const PHRASE_WORDS: usize = 5;

/// What stands between the words of a generated phrase.
pub open spec fn phrase_separator() -> Seq<char> {
    seq!['-']
}

/// A lower-case letter of the Latin alphabet.
pub open spec fn is_lower(c: char) -> bool {
    'a' <= c && c <= 'z'
}

/// A character that a phrase may hold: a lower-case letter or a hyphen.
pub open spec fn is_phrase_char(c: char) -> bool {
    is_lower(c) || c == '-'
}

/// Whether `s` is not empty, is made of lower-case letters and hyphens, and
/// begins and ends with a letter.
pub open spec fn is_lower_hyphenated(s: Seq<char>) -> bool {
    &&& s.len() > 0
    &&& forall|i: int| 0 <= i < s.len() ==> is_phrase_char(#[trigger] s[i])
    &&& is_lower(s[0])
    &&& is_lower(s.last())
}

/// Whether `w` has the shape that every word of the word list has.
pub open spec fn is_list_word(w: Seq<char>) -> bool {
    is_lower_hyphenated(w)
}

/// The words put one after the other with `sep` between neighbours.
pub open spec fn joined(words: Seq<Seq<char>>, sep: Seq<char>) -> Seq<char>
    decreases words.len(),
{
    if words.len() == 0 {
        Seq::empty()
    } else if words.len() == 1 {
        words[0]
    } else {
        joined(words.drop_last(), sep) + sep + words.last()
    }
}

/// Whether `s` is `count` words of the shape of list words with `sep` between
/// them.
pub open spec fn is_phrase_of(s: Seq<char>, count: nat, sep: Seq<char>) -> bool {
    exists|words: Seq<Seq<char>>|
        {
            &&& words.len() == count
            &&& forall|i: int| 0 <= i < words.len() ==> is_list_word(#[trigger] words[i])
            &&& s == #[trigger] joined(words, sep)
        }
}

/// Whether `s` has the shape of a generated phrase: [`PHRASE_WORDS`] words
/// of the shape of list words with a hyphen between them.
pub open spec fn is_phrase(s: Seq<char>) -> bool {
    is_phrase_of(s, PHRASE_WORDS as nat, phrase_separator())
}

/// List words joined by hyphens are not empty, are made of lower-case letters
/// and hyphens, and begin and end with a letter.
pub proof fn lemma_joined_shape(words: Seq<Seq<char>>)
    requires
        words.len() > 0,
        forall|i: int| 0 <= i < words.len() ==> is_list_word(#[trigger] words[i]),
    ensures
        is_lower_hyphenated(joined(words, phrase_separator())),
    decreases words.len(),
{
    if words.len() > 1 {
        let front = words.drop_last();
        assert forall|i: int| 0 <= i < front.len() implies is_list_word(#[trigger] front[i]) by {
            assert(front[i] == words[i]);
        }
        lemma_joined_shape(front);
        let head = joined(front, phrase_separator());
        let whole = joined(words, phrase_separator());
        let tail = words.last();
        assert(is_list_word(tail));
        assert(whole == head + phrase_separator() + tail);
        assert forall|i: int| 0 <= i < whole.len() implies is_phrase_char(#[trigger] whole[i]) by {
            if i < head.len() {
                assert(whole[i] == head[i]);
            } else if i == head.len() {
                assert(whole[i] == '-');
            } else {
                assert(whole[i] == tail[i - head.len() - 1]);
            }
        }
        assert(whole[0] == head[0]);
        assert(whole.last() == tail.last());
    } else {
        assert(is_list_word(words[0]));
    }
}

/// A generated phrase is a safe identifier.
pub proof fn lemma_phrase_is_safe(s: Seq<char>)
    requires
        is_phrase(s),
    ensures
        is_lower_hyphenated(s),
        safe_identifier(s),
{
    let words = choose|words: Seq<Seq<char>>|
        {
            &&& words.len() == PHRASE_WORDS as nat
            &&& forall|i: int| 0 <= i < words.len() ==> is_list_word(#[trigger] words[i])
            &&& s == #[trigger] joined(words, phrase_separator())
        };
    lemma_joined_shape(words);
    assert forall|i: int| 0 <= i < s.len() implies !is_forbidden(#[trigger] s[i]) by {
        assert(is_phrase_char(s[i]));
    }
    assert(s[0] != '.');
    if s == seq!['.'] || s == seq!['.', '.'] {
        assert(s[0] == '.');
    }
}

/// Phrase generation of the `chbs` crate: takes its basic configuration with
/// the built-in word list, sets the number of words, the separator and the
/// two capitalisation settings (always or never), and calls `generate` on the
/// scheme made from it. The crate draws that many words of its list at
/// random and joins them with the separator; with capitalisation off it
/// leaves the words as they are listed. Every word of the list is made of
/// lower-case letters and hyphens and begins and ends with a letter. Which
/// words come out is left open. The crate panics when asked for no word.
#[verifier::external_body]
fn generate_phrase(
    words: usize,
    separator: &str,
    capitalize_first: bool,
    capitalize_words: bool,
) -> (phrase: String)
    requires
        words > 0,
    ensures
        !capitalize_first && !capitalize_words ==> is_phrase_of(
            phrase@,
            words as nat,
            separator@,
        ),
{
    let mut c = chbs::config::BasicConfig::default();
    c.words = words;
    c.separator = separator.to_owned();
    c.capitalize_first = capitalize_first.into();
    c.capitalize_words = capitalize_words.into();
    chbs::scheme::ToScheme::to_scheme(&c).generate()
}

/// Draws a candidate identifier: a phrase of [`PHRASE_WORDS`] words of the
/// word list, as they are listed, with hyphens between them. It is a safe
/// identifier made of lower-case letters and hyphens, and no hyphen leads or
/// ends it. Calls are independent, so a phrase may come out twice; whether a
/// candidate is free is for the store to find out.
pub fn phrase() -> (candidate: String)
    ensures
        is_phrase(candidate@),
        is_lower_hyphenated(candidate@),
        safe_identifier(candidate@),
{
    let candidate = generate_phrase(PHRASE_WORDS, "-", false, false);
    proof {
        reveal_strlit("-");
        assert("-"@ =~= phrase_separator());
        lemma_phrase_is_safe(candidate@);
    }
    candidate
}

/// A character that no identifier may hold: the two path separators, and the
/// character that ends a file name.
pub open spec fn is_forbidden(c: char) -> bool {
    c == '/' || c == '\\' || c == '\0'
}

/// Whether `s` may name a paste. An identifier is a single path segment: it is
/// not empty, holds no forbidden character, and is neither `.` nor `..`. Such
/// a name, put behind a directory, stays inside that directory.
pub open spec fn safe_identifier(s: Seq<char>) -> bool {
    &&& s.len() > 0
    &&& forall|i: int| 0 <= i < s.len() ==> !is_forbidden(#[trigger] s[i])
    &&& s != seq!['.']
    &&& s != seq!['.', '.']
}

/// Whether every character of `s` is a dot.
pub open spec fn all_dots(s: Seq<char>) -> bool {
    forall|i: int| 0 <= i < s.len() ==> #[trigger] s[i] == '.'
}

/// Decides [`safe_identifier`] in one pass over the characters.
pub fn is_safe_identifier(id: &str) -> (ok: bool)
    ensures
        ok == safe_identifier(id@),
{
    let mut clean: bool = true;
    let mut dots_only: bool = true;
    let mut seen: u8 = 0;
    for c in it: id.chars()
        invariant
            it.seq() == id@,
            clean == forall|i: int| 0 <= i < it.index() ==> !is_forbidden(#[trigger] id@[i]),
            dots_only == forall|i: int| 0 <= i < it.index() ==> #[trigger] id@[i] == '.',
            seen == if it.index() < 3 { it.index() } else { 3 },
    {
        if c == '/' || c == '\\' || c == '\0' {
            clean = false;
        }
        if c != '.' {
            dots_only = false;
        }
        if seen < 3 {
            seen += 1;
        }
    }
    proof {
        let s = id@;
        if s =~= seq!['.'] || s =~= seq!['.', '.'] {
            assert(all_dots(s));
        }
        if all_dots(s) && s.len() == 1 {
            assert(s =~= seq!['.']);
        }
        if all_dots(s) && s.len() == 2 {
            assert(s =~= seq!['.', '.']);
        }
    }
    clean && seen > 0 && !(dots_only && seen < 3)
}

} // verus!
