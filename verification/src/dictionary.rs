use vstd::prelude::*;
use vstd::hash_set::StringHashSet;

use crate::text::{
    ascii_lower, ascii_lower_char, ascii_lower_seq, chars_of, has_quote, is_quote, push_char,
    split_lines, trim, trim_bounds, without_quotes,
};
use crate::types::Language;

pub use crate::search::check_and_switch_with_split;

verus! {

/// A set of words (its view is the set of their character sequences).
pub type Dictionary = StringHashSet;

/// What one line of a word list contributes to the dictionary: the trimmed,
/// ASCII-lower-cased word, and, when that word holds an apostrophe or a double
/// quote, also the word without them (unless nothing is left).
pub open spec fn line_words(line: Seq<char>) -> Set<Seq<char>> {
    let w = ascii_lower_seq(trim(line));
    if w.len() == 0 {
        Set::empty()
    } else if has_quote(w) && without_quotes(w).len() > 0 {
        set![w, without_quotes(w)]
    } else {
        set![w]
    }
}

/// The words contributed by a sequence of lines.
pub open spec fn words_of_lines(lines: Seq<Seq<char>>) -> Set<Seq<char>>
    decreases lines.len(),
{
    if lines.len() == 0 {
        Set::empty()
    } else {
        words_of_lines(lines.drop_last()).union(line_words(lines.last()))
    }
}

/// The dictionary that a word list (one word per line) stands for.
pub open spec fn dictionary_words(content: Seq<char>) -> Set<Seq<char>> {
    words_of_lines(split_lines(content))
}

/// Adds the words of one line to `dict`.
fn add_line_words(dict: &mut Dictionary, line: &[char])
    ensures
        final(dict)@ == old(dict)@.union(line_words(line@)),
{
    let (a, b) = trim_bounds(line);
    let ghost trimmed = trim(line@);
    let mut lower = String::new();
    let mut stripped = String::new();
    let mut quoted = false;
    let mut kept: usize = 0;
    let mut k: usize = a;
    while k < b
        invariant
            a <= k <= b <= line@.len(),
            trimmed == line@.subrange(a as int, b as int),
            lower@ == ascii_lower_seq(line@.subrange(a as int, k as int)),
            stripped@ == without_quotes(lower@),
            kept == stripped@.len(),
            kept <= k - a,
            quoted == has_quote(lower@),
        decreases b - k,
    {
        let c = ascii_lower_char(line[k]);
        let ghost before = lower@;
        push_char(&mut lower, c);
        assert(line@.subrange(a as int, k + 1) =~= line@.subrange(a as int, k as int).push(
            line@[k as int],
        ));
        assert(lower@ =~= ascii_lower_seq(line@.subrange(a as int, k + 1)));
        assert(lower@.drop_last() =~= before);
        if c == '\'' || c == '"' {
            quoted = true;
            assert(is_quote(lower@[lower@.len() - 1]));
        } else {
            push_char(&mut stripped, c);
            kept = kept + 1;
            assert forall|i: int| 0 <= i < lower@.len() && is_quote(#[trigger] lower@[i]) implies 0
                <= i < before.len() && is_quote(before[i]) by {
                assert(i != lower@.len() - 1);
                assert(lower@[i] == before[i]);
            }
            assert forall|i: int| 0 <= i < before.len() && is_quote(#[trigger] before[i]) implies 0
                <= i < lower@.len() && is_quote(lower@[i]) by {
                assert(lower@[i] == before[i]);
            }
        }
        k = k + 1;
    }
    let ghost w = lower@;
    assert(w == ascii_lower_seq(trim(line@)));
    if a == b {
        assert(w.len() == 0);
        assert(dict@.union(line_words(line@)) =~= dict@);
        return ;
    }
    if quoted && kept > 0 {
        dict.insert(stripped);
        dict.insert(lower);
        assert(final(dict)@ =~= old(dict)@.union(line_words(line@)));
    } else {
        dict.insert(lower);
        assert(final(dict)@ =~= old(dict)@.union(line_words(line@)));
    }
}

/// Parses a plain-text word list (one word per line) into a set of words.
///
/// Each line is trimmed of white space and lower-cased (ASCII only); blank
/// lines are skipped. For an entry that holds an apostrophe or a double
/// quote, the entry without them is added too, so that a word such as
/// `don't` matches a typed `dont` (the English key map cannot produce `'`).
pub fn parse_dictionary(content: &str) -> (dict: Dictionary)
    ensures
        dict@ == dictionary_words(content@),
{
    let chars = chars_of(content);
    let mut dict = Dictionary::with_capacity(content.len() / 8);
    let mut line: Vec<char> = Vec::new();
    let ghost mut done: Seq<Seq<char>> = Seq::empty();
    let mut i: usize = 0;
    assert(chars@.take(0) =~= Seq::<char>::empty());
    assert(split_lines(Seq::<char>::empty()) =~= done.push(line@));
    while i < chars.len()
        invariant
            i <= chars@.len(),
            split_lines(chars@.take(i as int)) == done.push(line@),
            dict@ == words_of_lines(done),
        decreases chars.len() - i,
    {
        let c = chars[i];
        assert(chars@.take(i + 1).drop_last() =~= chars@.take(i as int));
        if c == '\n' {
            add_line_words(&mut dict, line.as_slice());
            proof {
                assert(done.push(line@).drop_last() =~= done);
                done = done.push(line@);
            }
            line = Vec::new();
            assert(split_lines(chars@.take(i + 1)) =~= done.push(line@));
        } else {
            line.push(c);
            assert(split_lines(chars@.take(i + 1)) =~= done.push(line@));
        }
        i = i + 1;
    }
    add_line_words(&mut dict, line.as_slice());
    assert(chars@.take(chars.len() as int) =~= chars@);
    assert(done.push(line@).drop_last() =~= done);
    dict
}

/// The one-letter inflectional prefixes that Hebrew attaches to nouns and
/// verbs: vav (and), he (the), lamed (to/for), bet (in), kaf (as/like),
/// mem (from), shin (that).
pub open spec fn is_hebrew_prefix(c: char) -> bool {
    ||| c == '\u{5d5}'
    ||| c == '\u{5d4}'
    ||| c == '\u{5dc}'
    ||| c == '\u{5d1}'
    ||| c == '\u{5db}'
    ||| c == '\u{5de}'
    ||| c == '\u{5e9}'
}

fn is_hebrew_prefix_char(c: char) -> (r: bool)
    ensures
        r == is_hebrew_prefix(c),
{
    c == '\u{5d5}' || c == '\u{5d4}' || c == '\u{5dc}' || c == '\u{5d1}' || c == '\u{5db}' || c
        == '\u{5de}' || c == '\u{5e9}'
}

/// A Hebrew word matches when the dictionary holds it, or when it starts with
/// one of the one-letter prefixes and the dictionary holds the non-empty rest.
pub open spec fn hebrew_match(word: Seq<char>, dict: Set<Seq<char>>) -> bool {
    ||| dict.contains(word)
    ||| word.len() > 1 && is_hebrew_prefix(word[0]) && dict.contains(word.drop_first())
}

/// Hebrew lookup with a single-prefix fallback (only one prefix is stripped).
pub fn matches_hebrew(word: &str, dict: &Dictionary) -> (r: bool)
    ensures
        r == hebrew_match(word@, dict@),
{
    if dict.contains(word) {
        return true;
    }
    let n: usize = word.unicode_len();
    if n > 0 {
        let first = word.get_char(0);
        if is_hebrew_prefix_char(first) {
            let rest = word.substring_char(1, n);
            assert(rest@ =~= word@.drop_first());
            if n > 1 && dict.contains(rest) {
                return true;
            }
        }
    }
    false
}

/// The layout that a word decides for: the one whose dictionary holds its
/// reading in that layout, when the other dictionary does not hold the other
/// reading. An empty reading is in no dictionary.
pub open spec fn target_language(
    word_en: Seq<char>,
    word_he: Seq<char>,
    en_dict: Set<Seq<char>>,
    he_dict: Set<Seq<char>>,
) -> Option<Language> {
    let in_en = word_en.len() > 0 && en_dict.contains(word_en);
    let in_he = word_he.len() > 0 && he_dict.contains(word_he);
    if in_en && !in_he {
        Some(Language::English)
    } else if in_he && !in_en {
        Some(Language::Hebrew)
    } else {
        None
    }
}

/// Given the same key sequence read as English (`word_en`) and as Hebrew
/// (`word_he`), the layout to switch to, or `None` when the word is in both
/// dictionaries or in neither. The Hebrew side is a direct lookup, without
/// the prefix fallback.
pub fn decide_target_lang(
    word_en: &str,
    word_he: &str,
    en_dict: &Dictionary,
    he_dict: &Dictionary,
) -> (r: Option<Language>)
    ensures
        r == target_language(word_en@, word_he@, en_dict@, he_dict@),
{
    let is_in_en = !word_en.is_empty() && en_dict.contains(word_en);
    let is_in_he = !word_he.is_empty() && he_dict.contains(word_he);
    if is_in_en && !is_in_he {
        Some(Language::English)
    } else if is_in_he && !is_in_en {
        Some(Language::Hebrew)
    } else {
        None
    }
}

/// A key sequence is a known word when its English reading is in the English
/// dictionary or its Hebrew reading matches the Hebrew one (prefix fallback
/// included).
pub open spec fn known_word(
    word_en: Seq<char>,
    word_he: Seq<char>,
    en_dict: Set<Seq<char>>,
    he_dict: Set<Seq<char>>,
) -> bool {
    (word_en.len() > 0 && en_dict.contains(word_en)) || (word_he.len() > 0 && hebrew_match(
        word_he,
        he_dict,
    ))
}

/// True if the key sequence is recognised as a word in either dictionary.
pub fn is_known_word(
    word_en: &str,
    word_he: &str,
    en_dict: &Dictionary,
    he_dict: &Dictionary,
) -> (r: bool)
    ensures
        r == known_word(word_en@, word_he@, en_dict@, he_dict@),
{
    (!word_en.is_empty() && en_dict.contains(word_en)) || (!word_he.is_empty() && matches_hebrew(
        word_he,
        he_dict,
    ))
}

/// A word is in the words of a sequence of lines exactly when some line
/// contributes it.
pub proof fn lemma_words_of_lines(lines: Seq<Seq<char>>, w: Seq<char>)
    ensures
        words_of_lines(lines).contains(w) <==> exists|i: int|
            0 <= i < lines.len() && (#[trigger] line_words(lines[i])).contains(w),
    decreases lines.len(),
{
    if lines.len() > 0 {
        let init = lines.drop_last();
        lemma_words_of_lines(init, w);
        if words_of_lines(lines).contains(w) {
            if !line_words(lines.last()).contains(w) {
                let i = choose|i: int| 0 <= i < init.len() && (#[trigger] line_words(init[i])).contains(w);
                assert(lines[i] == init[i]);
            } else {
                assert(lines[lines.len() - 1] == lines.last());
            }
        }
        if exists|i: int| 0 <= i < lines.len() && (#[trigger] line_words(lines[i])).contains(w) {
            let i = choose|i: int| 0 <= i < lines.len() && (#[trigger] line_words(lines[i])).contains(w);
            if i < lines.len() - 1 {
                assert(init[i] == lines[i]);
            }
        }
    }
}

/// The characters of `without_quotes(s)` are characters of `s`.
pub proof fn lemma_without_quotes_chars(s: Seq<char>, i: int)
    requires
        0 <= i < without_quotes(s).len(),
    ensures
        exists|j: int| 0 <= j < s.len() && s[j] == without_quotes(s)[i],
    decreases s.len(),
{
    if s.len() > 0 {
        let init = s.drop_last();
        if is_quote(s.last()) {
            lemma_without_quotes_chars(init, i);
            let j = choose|j: int| 0 <= j < init.len() && init[j] == without_quotes(init)[i];
            assert(s[j] == init[j]);
        } else if i < without_quotes(init).len() {
            lemma_without_quotes_chars(init, i);
            let j = choose|j: int| 0 <= j < init.len() && init[j] == without_quotes(init)[i];
            assert(s[j] == init[j]);
        } else {
            assert(s[s.len() - 1] == without_quotes(s)[i]);
        }
    }
}

/// Every line of a word list whose trimmed, lower-cased form is not empty
/// puts that form into the dictionary; when the form holds an apostrophe or a
/// double quote, its form without them is in the dictionary too (unless it is
/// empty).
pub proof fn law_every_listed_word_is_found(content: Seq<char>, i: int)
    requires
        0 <= i < split_lines(content).len(),
    ensures
        ({
            let w = ascii_lower_seq(trim(split_lines(content)[i]));
            &&& w.len() > 0 ==> dictionary_words(content).contains(w)
            &&& w.len() > 0 && has_quote(w) && without_quotes(w).len() > 0 ==> dictionary_words(
                content,
            ).contains(without_quotes(w))
        }),
{
    let lines = split_lines(content);
    let w = ascii_lower_seq(trim(lines[i]));
    if w.len() > 0 {
        assert(line_words(lines[i]).contains(w));
        lemma_words_of_lines(lines, w);
        if has_quote(w) && without_quotes(w).len() > 0 {
            assert(line_words(lines[i]).contains(without_quotes(w)));
            lemma_words_of_lines(lines, without_quotes(w));
        }
    }
}

/// Every word of the dictionary comes from a line of the word list, is not
/// empty, and holds no upper-case ASCII letter.
pub proof fn law_dictionary_words_are_lowercase(content: Seq<char>, w: Seq<char>)
    requires
        dictionary_words(content).contains(w),
    ensures
        exists|i: int|
            0 <= i < split_lines(content).len() && (#[trigger] line_words(
                split_lines(content)[i],
            )).contains(w),
        w.len() > 0,
        ascii_lower_seq(w) == w,
{
    let lines = split_lines(content);
    lemma_words_of_lines(lines, w);
    let i = choose|i: int| 0 <= i < lines.len() && (#[trigger] line_words(lines[i])).contains(w);
    let lw = ascii_lower_seq(trim(lines[i]));
    assert forall|k: int| 0 <= k < lw.len() implies ascii_lower(#[trigger] lw[k]) == lw[k] by {}
    assert(ascii_lower_seq(lw) =~= lw);
    if w != lw {
        assert(w == without_quotes(lw));
        assert forall|k: int| 0 <= k < w.len() implies ascii_lower(#[trigger] w[k]) == w[k] by {
            lemma_without_quotes_chars(lw, k);
        }
        assert(ascii_lower_seq(w) =~= w);
    }
}

/// One of the seven Hebrew one-letter prefixes, spelled out: vav, he, lamed,
/// bet, kaf, mem, shin.
pub open spec fn is_one_letter_prefix(c: char) -> bool {
    c == '\u{5d5}' || c == '\u{5d4}' || c == '\u{5dc}' || c == '\u{5d1}' || c == '\u{5db}' || c
        == '\u{5de}' || c == '\u{5e9}'
}

/// A dictionary word with one of the seven prefix letters in front of it is
/// matched, for every prefix letter and every non-empty word.
pub proof fn law_prefixed_words_match(dict: Set<Seq<char>>, w: Seq<char>, letter: char)
    requires
        dict.contains(w),
        w.len() > 0,
        is_one_letter_prefix(letter),
    ensures
        hebrew_match(seq![letter] + w, dict),
{
    let word = seq![letter] + w;
    assert(word.drop_first() =~= w);
    assert(word[0] == letter);
}

/// A Hebrew word is matched exactly when the dictionary holds it, or it is
/// one of the seven prefix letters followed by a non-empty dictionary word:
/// only one letter is stripped, and only a prefix letter.
pub proof fn law_hebrew_match_sources(word: Seq<char>, dict: Set<Seq<char>>)
    ensures
        hebrew_match(word, dict) <==> dict.contains(word) || exists|letter: char, w: Seq<char>|
            is_one_letter_prefix(letter) && w.len() > 0 && dict.contains(w) && word == seq![letter]
                + w,
{
    if word.len() > 1 && is_hebrew_prefix(word[0]) && dict.contains(word.drop_first()) {
        assert(word =~= seq![word[0]] + word.drop_first());
    }
    if exists|letter: char, w: Seq<char>|
        is_one_letter_prefix(letter) && w.len() > 0 && dict.contains(w) && word == seq![letter]
            + w {
        let (letter, w) = choose|letter: char, w: Seq<char>|
            is_one_letter_prefix(letter) && w.len() > 0 && dict.contains(w) && word == seq![letter]
                + w;
        law_prefixed_words_match(dict, w, letter);
    }
}

} // verus!
