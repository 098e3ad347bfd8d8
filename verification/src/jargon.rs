//! The argument parser `jargon_args::Jargon` as this library uses it.
//!
//! The contracts of the functions marked `external_body` are not proved:
//! each states what the source of the parser, or the documentation of
//! `std`, shows. The lemmas are proved.

use crate::text::{text_view, texts};
use vstd::prelude::*;

verus! {

/// `jargon_args::Jargon`, the parser. What it holds is hidden here: see
/// [`jargon_words`].
#[verifier::external_type_specification]
#[verifier::external_body]
pub struct ExJargon(jargon_args::Jargon);

/// The words that a parser holds, in order, the program's name first.
pub uninterp spec fn jargon_words(j: jargon_args::Jargon) -> Seq<Seq<char>>;

/// Whether `char::is_alphabetic` holds of `c`.
pub uninterp spec fn is_alphabetic(c: char) -> bool;

/// Whether the parser can read `word`. It cannot read the empty word, nor
/// a word of one character that takes two bytes and is not alphabetic.
pub open spec fn is_plain_word(word: Seq<char>) -> bool {
    &&& word.len() >= 1
    &&& !(word.len() == 1 && 0x80 <= (word[0] as u32) && (word[0] as u32) < 0x800
        && !is_alphabetic(word[0]))
}

/// Whether the parser can read every one of `words`.
pub open spec fn all_plain(words: Seq<Seq<char>>) -> bool {
    forall|i: int| 0 <= i < words.len() ==> is_plain_word(#[trigger] words[i])
}

/// Whether `key` is the short form of a key: a dash and one ASCII
/// character.
pub open spec fn is_short_key(key: Seq<char>) -> bool {
    key.len() == 2 && key[0] == '-' && (key[1] as u32) < 0x80
}

/// Whether `key` is the long form of a key: it starts with a dash and has
/// three characters or more.
pub open spec fn is_long_key(key: Seq<char>) -> bool {
    key.len() >= 3 && key[0] == '-'
}

/// `word` without the dashes at its start.
pub open spec fn after_dashes(word: Seq<char>) -> Seq<char>
    decreases word.len(),
{
    if word.len() > 0 && word[0] == '-' {
        after_dashes(word.drop_first())
    } else {
        word
    }
}

/// Whether `word` is a dash and one ASCII character: the words that start
/// with a dash and take two bytes.
pub open spec fn is_short_word(word: Seq<char>) -> bool {
    word.len() == 2 && word[0] == '-' && (word[1] as u32) < 0x80
}

/// Whether the parser takes `word` for the key with the given two forms:
/// the word is the short form, or it starts with a dash, is no dash with
/// one ASCII character, and reads as the long form once the dashes at the
/// start of both are left aside.
pub open spec fn takes_for(word: Seq<char>, short: Seq<char>, long: Seq<char>) -> bool {
    ||| word == short
    ||| (word.len() >= 1 && word[0] == '-' && !is_short_word(word) && after_dashes(word)
        == after_dashes(long))
}

/// The position of the first word that the parser takes for the key, if
/// it takes one: the word that `Jargon::contains` removes.
pub open spec fn jargon_flag_at(words: Seq<Seq<char>>, short: Seq<char>, long: Seq<char>) -> Option<int>
    decreases words.len(),
{
    if words.len() == 0 {
        None
    } else if takes_for(words[0], short, long) {
        Some(0)
    } else {
        match jargon_flag_at(words.drop_first(), short, long) {
            Some(at) => Some(at + 1),
            None => None,
        }
    }
}

/// The position of the key whose value `Jargon::option_arg` returns: that
/// of the first word taken for the key, where a word follows it that does
/// not start with a dash.
pub open spec fn jargon_value_at(words: Seq<Seq<char>>, short: Seq<char>, long: Seq<char>) -> Option<int> {
    match jargon_flag_at(words, short, long) {
        Some(at) => if at + 1 < words.len() && !(words[at + 1].len() > 0 && words[at + 1][0]
            == '-') {
            Some(at)
        } else {
            None
        },
        None => None,
    }
}

/// The words after the first.
pub open spec fn after_first(words: Seq<Seq<char>>) -> Seq<Seq<char>> {
    if words.len() == 0 {
        words
    } else {
        words.skip(1)
    }
}

/// The word that is taken for a key is the first that can be: it lies
/// among the words, and no word before it is taken for the key.
pub proof fn lemma_flag_position(words: Seq<Seq<char>>, short: Seq<char>, long: Seq<char>)
    ensures
        match jargon_flag_at(words, short, long) {
            Some(at) => 0 <= at < words.len() && takes_for(words[at], short, long) && forall|
                j: int,
            |
                0 <= j < at ==> !takes_for(#[trigger] words[j], short, long),
            None => forall|j: int|
                0 <= j < words.len() ==> !takes_for(#[trigger] words[j], short, long),
        },
    decreases words.len(),
{
    if words.len() > 0 && !takes_for(words[0], short, long) {
        let tail = words.drop_first();
        lemma_flag_position(tail, short, long);
        match jargon_flag_at(tail, short, long) {
            Some(at) => {
                assert(words[at + 1] == tail[at]);
                assert forall|j: int| 0 <= j < at + 1 implies !takes_for(
                    #[trigger] words[j],
                    short,
                    long,
                ) by {
                    if j > 0 {
                        assert(words[j] == tail[j - 1]);
                    }
                }
            },
            None => {
                assert forall|j: int| 0 <= j < words.len() implies !takes_for(
                    #[trigger] words[j],
                    short,
                    long,
                ) by {
                    if j > 0 {
                        assert(words[j] == tail[j - 1]);
                    }
                }
            },
        }
    }
}

/// Tells whether a character is alphabetic, through `char::is_alphabetic`.
///
/// The contract claims only that the answer depends on the character
/// alone.
#[verifier::external_body]
pub(crate) fn alphabetic(c: char) -> (b: bool)
    ensures
        b == is_alphabetic(c),
{
    c.is_alphabetic()
}

/// Makes a parser, through `Jargon::from_vec`.
///
/// The contract claims that the parser holds the given words as they are.
#[verifier::external_body]
pub(crate) fn jargon_from(words: Vec<String>) -> (j: jargon_args::Jargon)
    ensures
        jargon_words(j) == texts(words@),
{
    jargon_args::Jargon::from_vec(words)
}

/// Asks for a flag, through `Jargon::contains` with a key of two forms.
///
/// The contract claims that the answer is yes exactly if some word is
/// taken for the key, that the first such word is then removed and every
/// other word stays in place, and that otherwise nothing changes.
#[verifier::external_body]
pub(crate) fn jargon_contains(j: &mut jargon_args::Jargon, short: &str, long: &str) -> (found: bool)
    requires
        is_short_key(short@),
        is_long_key(long@),
        all_plain(jargon_words(*old(j))),
    ensures
        match jargon_flag_at(jargon_words(*old(j)), short@, long@) {
            Some(at) => found && jargon_words(*final(j)) == jargon_words(*old(j)).remove(at),
            None => !found && jargon_words(*final(j)) == jargon_words(*old(j)),
        },
{
    j.contains([short, long])
}

/// Asks for the value of a key, through `Jargon::option_arg` with a key
/// of two forms and a `String` for the value.
///
/// The contract claims that a value is returned exactly if the first word
/// taken for the key is followed by a word that does not start with a
/// dash, that the value is that second word, that both are then removed
/// and every other word stays in place, and that otherwise nothing
/// changes.
#[verifier::external_body]
pub(crate) fn jargon_option_arg(j: &mut jargon_args::Jargon, short: &str, long: &str) -> (value:
    Option<String>)
    requires
        is_short_key(short@),
        is_long_key(long@),
        all_plain(jargon_words(*old(j))),
    ensures
        match jargon_value_at(jargon_words(*old(j)), short@, long@) {
            Some(at) => text_view(value) == Some(jargon_words(*old(j))[at + 1]) && jargon_words(
                *final(j),
            ) == jargon_words(*old(j)).remove(at).remove(at),
            None => value is None && jargon_words(*final(j)) == jargon_words(*old(j)),
        },
{
    j.option_arg::<String, [&str; 2]>([short, long])
}

/// Takes what is left, through `Jargon::finish`.
///
/// The contract claims that the result holds the parser's words after the
/// first, in order, and nothing where the parser holds no word.
#[verifier::external_body]
pub(crate) fn jargon_finish(j: jargon_args::Jargon) -> (rest: Vec<String>)
    ensures
        texts(rest@) == after_first(jargon_words(j)),
{
    j.finish()
}

} // verus!
