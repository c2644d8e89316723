use vstd::prelude::*;

use crate::text::{chars_of, copy_range, find_exec, find_first, occurs_in, occurs_in_exec, split_on};
use crate::types::Language;

verus! {

/// The lower-cased form of a string, as `str::to_lowercase` gives it (full
/// Unicode case mapping).
pub uninterp spec fn unicode_lowercase(s: Seq<char>) -> Seq<char>;

/// Lower-cases a string by `str::to_lowercase`. Trusted, not proved: the
/// result is `unicode_lowercase` of the argument, that is, it depends on the
/// argument's characters alone; nothing more is said of the Unicode mapping.
#[verifier::external_body]
fn to_lowercase(s: &str) -> (r: String)
    ensures
        r@ == unicode_lowercase(s@),
{
    s.to_lowercase()
}

/// The layout that a lower-cased keymap name stands for: Hebrew when it
/// mentions "hebrew" or "il", otherwise English when it mentions "english" or
/// "us".
pub open spec fn keymap_language(lowered: Seq<char>) -> Option<Language> {
    if occurs_in(lowered, "hebrew"@) || occurs_in(lowered, "il"@) {
        Some(Language::Hebrew)
    } else if occurs_in(lowered, "english"@) || occurs_in(lowered, "us"@) {
        Some(Language::English)
    } else {
        None
    }
}

pub fn classify_keymap(lowered: &str) -> (r: Option<Language>)
    ensures
        r == keymap_language(lowered@),
{
    let name = chars_of(lowered);
    let hebrew = chars_of("hebrew");
    let il = chars_of("il");
    let english = chars_of("english");
    let us = chars_of("us");
    if occurs_in_exec(name.as_slice(), hebrew.as_slice()) || occurs_in_exec(
        name.as_slice(),
        il.as_slice(),
    ) {
        Some(Language::Hebrew)
    } else if occurs_in_exec(name.as_slice(), english.as_slice()) || occurs_in_exec(
        name.as_slice(),
        us.as_slice(),
    ) {
        Some(Language::English)
    } else {
        None
    }
}

/// The raw keymap name of one `{`-separated block of the compositor's device
/// list: only a block of the main keyboard (`"main": true`) has one; it is
/// the quoted value after `"active_keymap":`.
pub open spec fn keymap_value(block: Seq<char>) -> Option<Seq<char>> {
    if !(occurs_in(block, "\"main\": true"@) || occurs_in(block, "\"main\":true"@)) {
        None
    } else {
        match find_first(block, "\"active_keymap\":"@) {
            None => None,
            Some(idx) => {
                let rest = block.skip(idx + "\"active_keymap\":"@.len());
                match find_first(rest, seq!['"']) {
                    None => None,
                    Some(start) => {
                        let value = rest.skip(start + 1);
                        match find_first(value, seq!['"']) {
                            None => None,
                            Some(end) => Some(value.take(end)),
                        }
                    },
                }
            },
        }
    }
}

/// The layout that one block of the device list reports as active.
pub open spec fn block_language(block: Seq<char>) -> Option<Language> {
    match keymap_value(block) {
        Some(value) => keymap_language(unicode_lowercase(value)),
        None => None,
    }
}

/// Some block of the device list reports `lang` as the active layout.
pub open spec fn layout_reported(devices: Seq<char>, lang: Language) -> bool {
    let blocks = split_on(devices, '{');
    exists|i: int| 0 <= i < blocks.len() && block_language(#[trigger] blocks[i]) == Some(lang)
}

/// The layouts that the compositor's device list (`hyprctl devices -j`)
/// reports as active on the main keyboard.
#[derive(Clone, Copy, Debug, PartialEq, Eq, Structural)]
pub struct ActiveLayouts {
    pub hebrew: bool,
    pub english: bool,
}

fn block_language_exec(block: &[char]) -> (r: Option<Language>)
    ensures
        r == block_language(block@),
{
    let main_spaced = chars_of("\"main\": true");
    let main_tight = chars_of("\"main\":true");
    if !(occurs_in_exec(block, main_spaced.as_slice()) || occurs_in_exec(
        block,
        main_tight.as_slice(),
    )) {
        return None;
    }
    let key = chars_of("\"active_keymap\":");
    let mut quote: Vec<char> = Vec::new();
    quote.push('"');
    assert(quote@ =~= seq!['"']);
    let idx = match find_exec(block, key.as_slice()) {
        Some(i) => i,
        None => return None,
    };
    proof {
        crate::text::lemma_find_from_occurs(block@, key@, 0);
        assert(crate::text::occurs_at(block@, key@, idx as int));
    }
    let block_len: usize = block.len();
    assert(idx + key@.len() <= block_len);
    let rest_vec = copy_range(block, idx + key.len(), block.len());
    let rest = rest_vec.as_slice();
    assert(rest@ =~= block@.skip(idx + key@.len()));
    let start = match find_exec(rest, quote.as_slice()) {
        Some(i) => i,
        None => return None,
    };
    proof {
        crate::text::lemma_find_from_occurs(rest@, quote@, 0);
    }
    let value_vec = copy_range(rest, start + 1, rest.len());
    let value = value_vec.as_slice();
    assert(value@ =~= rest@.skip(start + 1));
    let end = match find_exec(value, quote.as_slice()) {
        Some(i) => i,
        None => return None,
    };
    proof {
        crate::text::lemma_find_from_occurs(value@, quote@, 0);
    }
    let raw_vec = copy_range(value, 0, end);
    let raw = raw_vec.as_slice();
    assert(raw@ =~= value@.take(end as int));
    let raw_string = crate::text::string_of(raw);
    let lowered = to_lowercase(raw_string.as_str());
    classify_keymap(lowered.as_str())
}

/// Reads the compositor's device list and reports which layouts are active on
/// the main keyboard.
pub fn active_layouts(devices: &str) -> (r: ActiveLayouts)
    ensures
        r.hebrew == layout_reported(devices@, Language::Hebrew),
        r.english == layout_reported(devices@, Language::English),
{
    let chars = chars_of(devices);
    let mut block: Vec<char> = Vec::new();
    let ghost mut done: Seq<Seq<char>> = Seq::empty();
    let mut hebrew = false;
    let mut english = false;
    let mut i: usize = 0;
    assert(chars@.take(0) =~= Seq::<char>::empty());
    assert(split_on(Seq::<char>::empty(), '{') =~= done.push(block@));
    while i < chars.len()
        invariant
            i <= chars@.len(),
            split_on(chars@.take(i as int), '{') == done.push(block@),
            hebrew == exists|j: int|
                0 <= j < done.len() && block_language(#[trigger] done[j]) == Some(Language::Hebrew),
            english == exists|j: int|
                0 <= j < done.len() && block_language(#[trigger] done[j]) == Some(
                    Language::English,
                ),
        decreases chars.len() - i,
    {
        let c = chars[i];
        assert(chars@.take(i + 1).drop_last() =~= chars@.take(i as int));
        if c == '{' {
            let lang = block_language_exec(block.as_slice());
            let ghost old_done = done;
            proof {
                done = done.push(block@);
            }
            assert(done[done.len() - 1] == block@);
            assert forall|j: int| 0 <= j < old_done.len() implies done[j] == old_done[j] by {}
            match lang {
                Some(Language::Hebrew) => {
                    hebrew = true;
                },
                Some(Language::English) => {
                    english = true;
                },
                None => {},
            }
            block = Vec::new();
            assert(split_on(chars@.take(i + 1), '{') =~= done.push(block@));
        } else {
            block.push(c);
            assert(split_on(chars@.take(i + 1), '{') =~= done.push(block@));
        }
        i = i + 1;
    }
    let lang = block_language_exec(block.as_slice());
    let ghost all = done.push(block@);
    assert(chars@.take(chars.len() as int) =~= chars@);
    assert(all[all.len() - 1] == block@);
    assert forall|j: int| 0 <= j < done.len() implies all[j] == done[j] by {}
    match lang {
        Some(Language::Hebrew) => {
            hebrew = true;
        },
        Some(Language::English) => {
            english = true;
        },
        None => {},
    }
    ActiveLayouts { hebrew, english }
}

/// The layout is already the active one, so there is nothing to switch (and
/// the switch reports no change).
pub fn layout_already_active(lang: Language, active: ActiveLayouts) -> (r: bool)
    ensures
        r == ((lang == Language::English && active.english) || (lang == Language::Hebrew
            && active.hebrew)),
{
    match lang {
        Language::English => active.english,
        Language::Hebrew => active.hebrew,
    }
}

/// The compositor's layout index for a language: English is layout 0 and
/// Hebrew layout 1.
pub fn hyprland_layout_index(lang: Language) -> (r: &'static str)
    ensures
        lang == Language::English ==> r@ == "0"@,
        lang == Language::Hebrew ==> r@ == "1"@,
{
    match lang {
        Language::English => "0",
        Language::Hebrew => "1",
    }
}

/// The language code under which macOS finds the input source of a layout.
pub fn input_source_language_code(lang: Language) -> (r: &'static str)
    ensures
        lang == Language::English ==> r@ == "en"@,
        lang == Language::Hebrew ==> r@ == "he"@,
{
    match lang {
        Language::English => "en",
        Language::Hebrew => "he",
    }
}

/// The Windows language identifier of a layout: English (United States) or
/// Hebrew (Israel).
pub fn windows_language_id(lang: Language) -> (r: u16)
    ensures
        lang == Language::English ==> r == 0x0409,
        lang == Language::Hebrew ==> r == 0x040d,
{
    match lang {
        Language::English => 0x0409,
        Language::Hebrew => 0x040d,
    }
}

/// The keyboard layout identifiers to load for a language when no installed
/// layout has its language identifier, in the order to try them (Hebrew
/// Standard is commonly `0002040d`).
pub fn windows_layout_ids(lang: Language) -> (r: Vec<&'static str>)
    ensures
        lang == Language::English ==> r@.len() == 1 && r@[0]@ == "00000409"@,
        lang == Language::Hebrew ==> r@.len() == 2 && r@[0]@ == "0002040d"@ && r@[1]@
            == "0000040d"@,
{
    let mut ids: Vec<&'static str> = Vec::new();
    match lang {
        Language::English => {
            ids.push("00000409");
        },
        Language::Hebrew => {
            ids.push("0002040d");
            ids.push("0000040d");
        },
    }
    ids
}

/// The language identifier of a keyboard layout handle: its low 16 bits.
pub fn layout_handle_language(handle: isize) -> (r: u16)
    ensures
        r == handle as u16,
{
    let bits: usize = (handle as usize) & 0xFFFF;
    assert(((handle as usize) & 0xFFFF) as u16 == handle as u16) by (bit_vector);
    bits as u16
}

/// The first installed keyboard layout whose language identifier is
/// `language_id`.
pub fn find_installed_layout(installed: &[isize], language_id: u16) -> (r: Option<isize>)
    ensures
        r matches Some(h) ==> exists|i: int|
            0 <= i < installed@.len() && installed@[i] == h && h as u16 == language_id
                && forall|j: int| 0 <= j < i ==> installed@[j] as u16 != language_id,
        r is None ==> forall|i: int| 0 <= i < installed@.len() ==> installed@[i] as u16 != language_id,
{
    let mut i: usize = 0;
    while i < installed.len()
        invariant
            i <= installed@.len(),
            forall|j: int| 0 <= j < i ==> installed@[j] as u16 != language_id,
        decreases installed.len() - i,
    {
        let handle: isize = installed[i];
        if layout_handle_language(handle) == language_id {
            return Some(handle);
        }
        i = i + 1;
    }
    None
}

/// Appending a separator and a piece without separators adds that piece as
/// the last one.
pub proof fn lemma_split_on_append(s: Seq<char>, sep: char, piece: Seq<char>)
    requires
        forall|k: int| 0 <= k < piece.len() ==> piece[k] != sep,
    ensures
        split_on(s + seq![sep] + piece, sep) == split_on(s, sep).push(piece),
    decreases piece.len(),
{
    let t = s + seq![sep] + piece;
    if piece.len() == 0 {
        assert(t =~= s.push(sep));
        assert(t.drop_last() =~= s);
        assert(t.last() == sep);
        assert(piece =~= Seq::<char>::empty());
        assert(split_on(t, sep) == split_on(t.drop_last(), sep).push(Seq::<char>::empty()));
    } else {
        let init = piece.drop_last();
        lemma_split_on_append(s, sep, init);
        assert(t.drop_last() =~= s + seq![sep] + init);
        assert(t.last() == piece.last());
        assert(piece.last() != sep);
        let prev = split_on(t.drop_last(), sep);
        assert(prev == split_on(s, sep).push(init));
        assert(split_on(t, sep) == prev.update(prev.len() - 1, prev.last().push(t.last())));
        assert(init.push(piece.last()) =~= piece);
        assert(prev.update(prev.len() - 1, prev.last().push(t.last())) =~= split_on(s, sep).push(
            piece,
        ));
    }
}

/// What the device list reports does not depend on the blocks that come
/// after: appending a block that reports no layout (such as a keyboard that
/// is not the main one) changes nothing, and appending any block keeps what
/// was reported and adds the layout that block reports.
pub proof fn law_appended_block(devices: Seq<char>, block: Seq<char>, lang: Language)
    requires
        forall|k: int| 0 <= k < block.len() ==> block[k] != '{',
    ensures
        layout_reported(devices + seq!['{'] + block, lang) == (layout_reported(devices, lang)
            || block_language(block) == Some(lang)),
        block_language(block) is None ==> layout_reported(devices + seq!['{'] + block, lang)
            == layout_reported(devices, lang),
{
    lemma_split_on_append(devices, '{', block);
    let before = split_on(devices, '{');
    let after = split_on(devices + seq!['{'] + block, '{');
    assert(after == before.push(block));
    if layout_reported(devices, lang) {
        let i = choose|i: int| 0 <= i < before.len() && block_language(#[trigger] before[i]) == Some(lang);
        assert(after[i] == before[i]);
    }
    if block_language(block) == Some(lang) {
        assert(after[before.len() as int] == block);
    }
    if layout_reported(devices + seq!['{'] + block, lang) {
        let i = choose|i: int| 0 <= i < after.len() && block_language(#[trigger] after[i]) == Some(lang);
        if i < before.len() {
            assert(after[i] == before[i]);
        }
    }
}

} // verus!
