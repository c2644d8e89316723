use typelan::dictionary::parse_dictionary;
use typelan::keymap::{evkey_to_english_char, EvdevKey};
use typelan::search::{check_and_switch_with_split, key_word};
use typelan::types::Language;

/// The Linux keys that type `word` in the English layout.
fn keys_for(word: &str) -> Vec<EvdevKey> {
    word.chars()
        .map(|c| {
            (0u16..300)
                .map(EvdevKey)
                .find(|k| evkey_to_english_char(*k) == Some(c))
                .expect("a key for every character")
        })
        .collect()
}

/// Runs a search, answering the switches in turn with `answers`; returns the
/// layouts switched to and the result.
fn drive(
    keys: &[EvdevKey],
    en: &str,
    he: &str,
    answers: &[bool],
) -> (Vec<Language>, Option<usize>) {
    let en_dict = parse_dictionary(en);
    let he_dict = parse_dictionary(he);
    let mut search = check_and_switch_with_split(keys, &en_dict, &he_dict);
    let mut tried = Vec::new();
    let mut i = 0;
    while let Some(candidate) = search.next_switch() {
        tried.push(candidate.lang);
        let switched = answers[i];
        i += 1;
        if let Some(start) = search.record_switch(switched) {
            return (tried, Some(start));
        }
    }
    (tried, None)
}

#[test]
fn key_words_in_both_layouts() {
    let keys = keys_for("akuo");
    assert_eq!(key_word(&keys, 0, 4, Language::English), "akuo");
    assert_eq!(key_word(&keys, 0, 4, Language::Hebrew), "\u{5e9}\u{5dc}\u{5d5}\u{5dd}");
    assert_eq!(key_word(&keys, 1, 3, Language::English), "ku");
    assert_eq!(key_word(&keys, 2, 2, Language::Hebrew), "");
}

#[test]
fn english_word_typed_in_hebrew_layout_switches_to_english() {
    let keys = keys_for("hello");
    let (tried, result) = drive(&keys, "hello\n", "\u{5e9}\u{5dc}\u{5d5}\u{5dd}\n", &[true]);
    assert_eq!(tried, vec![Language::English]);
    assert_eq!(result, Some(0));
}

#[test]
fn hebrew_word_typed_in_english_layout_switches_to_hebrew() {
    // shalom, typed with the English layout active: "akuo"
    let keys = keys_for("akuo");
    let (tried, result) = drive(&keys, "hello\n", "\u{5e9}\u{5dc}\u{5d5}\u{5dd}\n", &[true]);
    assert_eq!(tried, vec![Language::Hebrew]);
    assert_eq!(result, Some(0));
}

#[test]
fn failed_switch_of_whole_word_ends_the_search() {
    let keys = keys_for("hello");
    let (tried, result) = drive(&keys, "hello\nhe\nllo\n", "", &[false]);
    assert_eq!(tried, vec![Language::English]);
    assert_eq!(result, None);
}

#[test]
fn missing_space_is_found_by_splitting() {
    let keys = keys_for("hellohello");
    let (tried, result) = drive(&keys, "hello\n", "", &[true]);
    assert_eq!(tried, vec![Language::English]);
    assert_eq!(result, Some(5));
}

#[test]
fn splits_are_tried_longest_prefix_first() {
    let keys = keys_for("helloworld");
    let en = "hello\nworld\nhell\noworld\n";
    let (tried, result) = drive(&keys, en, "", &[false, true]);
    assert_eq!(tried, vec![Language::English, Language::English]);
    assert_eq!(result, Some(4));
    let (tried, result) = drive(&keys, en, "", &[true]);
    assert_eq!(tried, vec![Language::English]);
    assert_eq!(result, Some(5));
    let (tried, result) = drive(&keys, en, "", &[false, false]);
    assert_eq!(tried.len(), 2);
    assert_eq!(result, None);
}

#[test]
fn split_prefix_may_be_a_prefixed_hebrew_word() {
    // "ha-bayit" typed with the English layout (V, C, H, comma), then "hello"
    let mut keys = vec![EvdevKey(47), EvdevKey(46), EvdevKey(35), EvdevKey(51)];
    keys.extend(keys_for("hello"));
    let (tried, result) = drive(&keys, "hello\n", "\u{5d1}\u{5d9}\u{5ea}\n", &[true]);
    assert_eq!(tried, vec![Language::English]);
    assert_eq!(result, Some(4));
}

#[test]
fn ambiguous_or_unknown_words_switch_nothing() {
    let keys = keys_for("akuo");
    let (tried, result) = drive(&keys, "akuo\n", "\u{5e9}\u{5dc}\u{5d5}\u{5dd}\n", &[]);
    assert!(tried.is_empty());
    assert_eq!(result, None);
    let (tried, result) = drive(&keys_for("qqq"), "hello\n", "", &[]);
    assert!(tried.is_empty());
    assert_eq!(result, None);
}

#[test]
fn empty_key_sequence_switches_nothing() {
    let (tried, result) = drive(&[], "hello\n", "", &[]);
    assert!(tried.is_empty());
    assert_eq!(result, None);
}
