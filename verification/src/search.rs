use vstd::prelude::*;
use crate::dictionary::Dictionary;

use crate::dictionary::{
    decide_target_lang, is_known_word, is_one_letter_prefix, known_word, target_language,
};
use crate::keymap::LayoutKey;
use crate::text::push_char;
use crate::types::Language;

verus! {

/// The character that `key` types in the layout of `lang`.
pub open spec fn key_char<K: LayoutKey>(key: K, lang: Language) -> Option<char> {
    match lang {
        Language::English => key.english(),
        Language::Hebrew => key.hebrew(),
    }
}

/// The word that `keys` type in the layout of `lang`: the characters of the
/// keys in order, skipping keys that type nothing in that layout.
pub open spec fn layout_word<K: LayoutKey>(keys: Seq<K>, lang: Language) -> Seq<char>
    decreases keys.len(),
{
    if keys.len() == 0 {
        Seq::empty()
    } else {
        let before = layout_word(keys.drop_last(), lang);
        match key_char(keys.last(), lang) {
            Some(c) => before.push(c),
            None => before,
        }
    }
}

/// The word that `keys[from..to]` type in the layout of `lang`.
pub fn key_word<K: LayoutKey>(keys: &[K], from: usize, to: usize, lang: Language) -> (r: String)
    requires
        from <= to <= keys@.len(),
    ensures
        r@ == layout_word(keys@.subrange(from as int, to as int), lang),
{
    let mut word = String::new();
    let mut i: usize = from;
    assert(keys@.subrange(from as int, from as int) =~= Seq::<K>::empty());
    while i < to
        invariant
            from <= i <= to <= keys@.len(),
            word@ == layout_word(keys@.subrange(from as int, i as int), lang),
        decreases to - i,
    {
        let key = keys[i];
        let c = match lang {
            Language::English => key.english_char(),
            Language::Hebrew => key.hebrew_char(),
        };
        assert(keys@.subrange(from as int, i + 1).drop_last() =~= keys@.subrange(
            from as int,
            i as int,
        ));
        assert(keys@.subrange(from as int, i + 1).last() == key);
        match c {
            Some(ch) => push_char(&mut word, ch),
            None => {},
        }
        i = i + 1;
    }
    word
}

/// A layout to switch to, and where the word that decided for it starts in
/// the key sequence.
#[derive(Clone, Copy, Debug, PartialEq, Eq, Structural)]
pub struct SwitchCandidate {
    pub start: usize,
    pub lang: Language,
}

/// What splitting `keys` before position `s` decides: when the prefix is a
/// known word in some dictionary, the layout that the suffix decides for.
pub open spec fn split_decision<K: LayoutKey>(
    keys: Seq<K>,
    s: int,
    en_dict: Set<Seq<char>>,
    he_dict: Set<Seq<char>>,
) -> Option<Language> {
    let prefix = keys.subrange(0, s);
    let suffix = keys.subrange(s, keys.len() as int);
    if known_word(
        layout_word(prefix, Language::English),
        layout_word(prefix, Language::Hebrew),
        en_dict,
        he_dict,
    ) {
        target_language(
            layout_word(suffix, Language::English),
            layout_word(suffix, Language::Hebrew),
            en_dict,
            he_dict,
        )
    } else {
        None
    }
}

/// The split points from `hi` down to 1 that decide for a layout, longest
/// prefix first.
pub open spec fn split_candidates<K: LayoutKey>(
    keys: Seq<K>,
    hi: int,
    en_dict: Set<Seq<char>>,
    he_dict: Set<Seq<char>>,
) -> Seq<SwitchCandidate>
    decreases hi,
{
    if hi < 1 {
        Seq::empty()
    } else {
        let here = match split_decision(keys, hi, en_dict, he_dict) {
            Some(lang) => seq![SwitchCandidate { start: hi as usize, lang }],
            None => Seq::empty(),
        };
        here + split_candidates(keys, hi - 1, en_dict, he_dict)
    }
}

/// The layout switches to try for a key sequence, in order. When the whole
/// sequence decides for a layout, that is the only one (starting at 0).
/// Otherwise, every split point from the longest prefix down whose prefix is
/// a known word and whose suffix decides for a layout.
pub open spec fn switch_candidates<K: LayoutKey>(
    keys: Seq<K>,
    en_dict: Set<Seq<char>>,
    he_dict: Set<Seq<char>>,
) -> Seq<SwitchCandidate> {
    if keys.len() == 0 {
        Seq::empty()
    } else {
        match target_language(
            layout_word(keys, Language::English),
            layout_word(keys, Language::Hebrew),
            en_dict,
            he_dict,
        ) {
            Some(lang) => seq![SwitchCandidate { start: 0, lang }],
            None => split_candidates(keys, keys.len() - 1, en_dict, he_dict),
        }
    }
}

/// The layout-switch search over one finished key sequence. It hands out the
/// layouts to switch to in order; the caller performs each switch and reports
/// whether the layout changed. The first switch that changes the layout ends
/// the search, with the start of the word to retype.
pub struct SwitchSearch {
    candidates: Vec<SwitchCandidate>,
    next: usize,
}

impl SwitchSearch {
    /// The switches that the search tries, in order.
    pub closed spec fn candidates(&self) -> Seq<SwitchCandidate> {
        self.candidates@
    }

    /// How many of the switches have been tried and have not changed the
    /// layout; the length of `candidates()` once the search is over.
    pub closed spec fn position(&self) -> int {
        self.next as int
    }

    /// The switch to try next (the layout, and where the word that decides
    /// for it starts), or `None` once the search is over.
    pub fn next_switch(&self) -> (r: Option<SwitchCandidate>)
        ensures
            self.position() < self.candidates().len() ==> r == Some(
                self.candidates()[self.position()],
            ),
            self.position() >= self.candidates().len() ==> r is None,
    {
        if self.next < self.candidates.len() {
            Some(self.candidates[self.next])
        } else {
            None
        }
    }

    /// Reports whether the switch handed out last changed the layout. When it
    /// did, the search is over and the result is the start of the word that
    /// decided for it; when not, the search moves on to the next switch.
    pub fn record_switch(&mut self, switched: bool) -> (r: Option<usize>)
        requires
            old(self).position() < old(self).candidates().len(),
        ensures
            final(self).candidates() == old(self).candidates(),
            switched ==> r == Some(old(self).candidates()[old(self).position()].start),
            switched ==> final(self).position() == final(self).candidates().len(),
            !switched ==> r is None,
            !switched ==> final(self).position() == old(self).position() + 1,
    {
        if switched {
            let start: usize = self.candidates[self.next].start;
            self.next = self.candidates.len();
            Some(start)
        } else {
            assert(self.next < self.candidates.len());
            self.next = self.next + 1;
            None
        }
    }
}

/// Plans the layout-switch decision over a finished key sequence.
///
/// The whole sequence is tried first. If it decides for no layout, split
/// points are scanned from the longest prefix down: where the prefix is a
/// known word in some dictionary and the suffix decides for a layout, the
/// suffix is taken as the current word (the user forgot the space between two
/// words). A candidate's `start` is where the word to delete and retype
/// begins (0 for the whole sequence).
pub fn check_and_switch_with_split<K: LayoutKey>(
    keys: &[K],
    en_dict: &Dictionary,
    he_dict: &Dictionary,
) -> (r: SwitchSearch)
    ensures
        r.candidates() == switch_candidates(keys@, en_dict@, he_dict@),
        r.position() == 0,
{
    let mut candidates: Vec<SwitchCandidate> = Vec::new();
    let len: usize = keys.len();
    if len == 0 {
        return SwitchSearch { candidates, next: 0 };
    }
    assert(keys@.subrange(0, len as int) =~= keys@);
    let full_en = key_word(keys, 0, len, Language::English);
    let full_he = key_word(keys, 0, len, Language::Hebrew);
    if let Some(lang) = decide_target_lang(full_en.as_str(), full_he.as_str(), en_dict, he_dict) {
        candidates.push(SwitchCandidate { start: 0, lang });
        assert(candidates@ =~= seq![SwitchCandidate { start: 0, lang }]);
        return SwitchSearch { candidates, next: 0 };
    }
    let mut split: usize = len - 1;
    assert(candidates@ + split_candidates(keys@, split as int, en_dict@, he_dict@)
        =~= split_candidates(keys@, len - 1, en_dict@, he_dict@));
    while split >= 1
        invariant
            split < len == keys@.len(),
            candidates@ + split_candidates(keys@, split as int, en_dict@, he_dict@)
                == split_candidates(keys@, len - 1, en_dict@, he_dict@),
        decreases split,
    {
        let ghost before = candidates@;
        let prefix_en = key_word(keys, 0, split, Language::English);
        let prefix_he = key_word(keys, 0, split, Language::Hebrew);
        if is_known_word(prefix_en.as_str(), prefix_he.as_str(), en_dict, he_dict) {
            let suffix_en = key_word(keys, split, len, Language::English);
            let suffix_he = key_word(keys, split, len, Language::Hebrew);
            if let Some(lang) = decide_target_lang(
                suffix_en.as_str(),
                suffix_he.as_str(),
                en_dict,
                he_dict,
            ) {
                candidates.push(SwitchCandidate { start: split, lang });
            }
        }
        assert(candidates@ + split_candidates(keys@, split - 1, en_dict@, he_dict@) =~= before
            + split_candidates(keys@, split as int, en_dict@, he_dict@));
        split = split - 1;
    }
    assert(candidates@ =~= split_candidates(keys@, len - 1, en_dict@, he_dict@));
    SwitchSearch { candidates, next: 0 }
}

/// The split candidates up to `hi` are, longest prefix first, exactly the
/// split points in `1..=hi` that decide for a layout.
pub proof fn lemma_split_candidates<K: LayoutKey>(
    keys: Seq<K>,
    hi: int,
    en_dict: Set<Seq<char>>,
    he_dict: Set<Seq<char>>,
)
    requires
        hi < keys.len() <= usize::MAX,
    ensures
        ({
            let c = split_candidates(keys, hi, en_dict, he_dict);
            &&& forall|i: int|
                0 <= i < c.len() ==> 1 <= (#[trigger] c[i]).start <= hi && split_decision(
                    keys,
                    c[i].start as int,
                    en_dict,
                    he_dict,
                ) == Some(c[i].lang)
            &&& forall|i: int, j: int| 0 <= i < j < c.len() ==> c[i].start > c[j].start
            &&& forall|s: int, lang: Language|
                1 <= s <= hi && split_decision(keys, s, en_dict, he_dict) == Some(lang)
                    ==> c.contains(SwitchCandidate { start: s as usize, lang })
        }),
    decreases hi,
{
    if hi >= 1 {
        lemma_split_candidates(keys, hi - 1, en_dict, he_dict);
        let rest = split_candidates(keys, hi - 1, en_dict, he_dict);
        let c = split_candidates(keys, hi, en_dict, he_dict);
        match split_decision(keys, hi, en_dict, he_dict) {
            Some(lang) => {
                let here = seq![SwitchCandidate { start: hi as usize, lang }];
                assert(c == here + rest);
                assert forall|i: int| 0 <= i < c.len() implies 1 <= (#[trigger] c[i]).start <= hi
                    && split_decision(keys, c[i].start as int, en_dict, he_dict) == Some(
                    c[i].lang,
                ) by {
                    if i > 0 {
                        assert(c[i] == rest[i - 1]);
                    }
                }
                assert forall|i: int, j: int| 0 <= i < j < c.len() implies c[i].start
                    > c[j].start by {
                    assert(c[j] == rest[j - 1]);
                    if i > 0 {
                        assert(c[i] == rest[i - 1]);
                    }
                }
                assert forall|s: int, l: Language|
                    1 <= s <= hi && split_decision(keys, s, en_dict, he_dict) == Some(
                        l,
                    ) implies c.contains(SwitchCandidate { start: s as usize, lang: l }) by {
                    if s == hi {
                        assert(c[0] == SwitchCandidate { start: s as usize, lang: l });
                    } else {
                        let k = choose|k: int|
                            0 <= k < rest.len() && rest[k] == SwitchCandidate {
                                start: s as usize,
                                lang: l,
                            };
                        assert(c[k + 1] == rest[k]);
                    }
                }
            },
            None => {
                assert(c =~= rest);
            },
        }
    }
}

/// The layout-switch candidates of a key sequence: when the whole sequence
/// decides for a layout, it is the only candidate, starting at 0; otherwise
/// the candidates are exactly the split points whose prefix is a known word
/// and whose suffix decides for a layout, each with that layout, from the
/// longest prefix down. Every start lies inside the sequence.
pub proof fn law_switch_candidates<K: LayoutKey>(
    keys: Seq<K>,
    en_dict: Set<Seq<char>>,
    he_dict: Set<Seq<char>>,
)
    requires
        keys.len() <= usize::MAX,
    ensures
        ({
            let c = switch_candidates(keys, en_dict, he_dict);
            let full = target_language(
                layout_word(keys, Language::English),
                layout_word(keys, Language::Hebrew),
                en_dict,
                he_dict,
            );
            &&& keys.len() == 0 ==> c.len() == 0
            &&& forall|i: int| 0 <= i < c.len() ==> (#[trigger] c[i]).start < keys.len()
            &&& forall|i: int, j: int| 0 <= i < j < c.len() ==> c[i].start > c[j].start
            &&& keys.len() > 0 && full is Some ==> c == seq![
                SwitchCandidate { start: 0, lang: full->0 },
            ]
            &&& keys.len() > 0 && full is None ==> forall|s: int, lang: Language|
                c.contains(SwitchCandidate { start: s as usize, lang }) && 0 <= s < keys.len()
                    <==> 1 <= s < keys.len() && split_decision(keys, s, en_dict, he_dict) == Some(
                    lang,
                )
        }),
{
    if keys.len() > 0 {
        lemma_split_candidates(keys, keys.len() - 1, en_dict, he_dict);
        let c = switch_candidates(keys, en_dict, he_dict);
        let full = target_language(
            layout_word(keys, Language::English),
            layout_word(keys, Language::Hebrew),
            en_dict,
            he_dict,
        );
        if full is None {
            assert forall|s: int, lang: Language|
                c.contains(SwitchCandidate { start: s as usize, lang }) && 0 <= s < keys.len()
                    implies 1 <= s < keys.len() && split_decision(keys, s, en_dict, he_dict)
                    == Some(lang) by {
                let k = choose|k: int| 0 <= k < c.len() && c[k] == SwitchCandidate { start: s as usize, lang };
                assert(c[k].start as int == s);
            }
        }
    }
}

/// The word `w` is in the dictionary `dict` and is not empty.
pub open spec fn listed(w: Seq<char>, dict: Set<Seq<char>>) -> bool {
    w.len() > 0 && dict.contains(w)
}

/// What a candidate means, over the dictionaries themselves. The keys from
/// its start on read, in the layout it switches to, as a word of that
/// layout's dictionary, and in the other layout not as a word of the other
/// dictionary. When it starts after 0, the keys before it read as an English
/// word, or as a Hebrew word (directly, or after one of the seven prefix
/// letters), and the whole sequence decides for no layout.
pub proof fn law_candidates_mean_words<K: LayoutKey>(
    keys: Seq<K>,
    en_dict: Set<Seq<char>>,
    he_dict: Set<Seq<char>>,
    i: int,
)
    requires
        keys.len() <= usize::MAX,
        0 <= i < switch_candidates(keys, en_dict, he_dict).len(),
    ensures
        ({
            let c = switch_candidates(keys, en_dict, he_dict)[i];
            let start = c.start as int;
            let prefix_en = layout_word(keys.subrange(0, start), Language::English);
            let prefix_he = layout_word(keys.subrange(0, start), Language::Hebrew);
            let word_en = layout_word(keys.subrange(start, keys.len() as int), Language::English);
            let word_he = layout_word(keys.subrange(start, keys.len() as int), Language::Hebrew);
            &&& 0 <= start < keys.len()
            &&& c.lang == Language::English ==> listed(word_en, en_dict) && !listed(
                word_he,
                he_dict,
            )
            &&& c.lang == Language::Hebrew ==> listed(word_he, he_dict) && !listed(
                word_en,
                en_dict,
            )
            &&& start > 0 ==> {
                ||| listed(prefix_en, en_dict)
                ||| listed(prefix_he, he_dict)
                ||| (prefix_he.len() > 1 && is_one_letter_prefix(prefix_he[0]) && listed(
                    prefix_he.drop_first(),
                    he_dict,
                ))
            }
            &&& start > 0 ==> target_language(
                layout_word(keys, Language::English),
                layout_word(keys, Language::Hebrew),
                en_dict,
                he_dict,
            ) is None
        }),
{
    law_switch_candidates(keys, en_dict, he_dict);
    let cands = switch_candidates(keys, en_dict, he_dict);
    let c = cands[i];
    let full = target_language(
        layout_word(keys, Language::English),
        layout_word(keys, Language::Hebrew),
        en_dict,
        he_dict,
    );
    assert(keys.subrange(0, keys.len() as int) =~= keys);
    if full is Some {
        assert(cands == seq![SwitchCandidate { start: 0, lang: full->0 }]);
        assert(c.start == 0);
    } else {
        lemma_split_candidates(keys, keys.len() - 1, en_dict, he_dict);
        assert(split_decision(keys, c.start as int, en_dict, he_dict) == Some(c.lang));
    }
}

} // verus!
