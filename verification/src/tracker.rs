use vstd::prelude::*;

use crate::keymap::{evdev_counterpart, evdev_english, evdev_hebrew, key_english, key_hebrew, EvdevKey, Key, LayoutKey};
use crate::keymap::{evkey_to_english_char, evkey_to_hebrew_char, key_to_english_char, key_to_hebrew_char};
use crate::types::{wrapping_successor, AppControl};

verus! {

/// What a key press does to the word being typed.
#[derive(Clone, Copy, Debug, PartialEq, Eq, Structural)]
pub enum KeyKind {
    /// Space or Enter: the word is finished and gets checked.
    Terminator,
    /// Deletes the last key of the word.
    Backspace,
    /// Moves the cursor or the focus: the word is dropped unchecked.
    Reset,
    /// Types a character in at least one of the two layouts.
    Text,
    /// Anything else (modifiers, function keys): no effect on the word.
    Ignored,
}

/// A key that types nothing in both layouts is ignored; one that types
/// something in either is text.
pub open spec fn text_kind(english: Option<char>, hebrew: Option<char>) -> KeyKind {
    if english is Some || hebrew is Some {
        KeyKind::Text
    } else {
        KeyKind::Ignored
    }
}

/// How the Linux listener treats a key (event codes of evdev): Space, Enter
/// and keypad Enter finish the word; Tab, Escape, the arrows, Home, End,
/// Page Up/Down, Insert, Delete and the left, right and middle mouse buttons
/// drop it.
pub open spec fn linux_kind(code: u16) -> KeyKind {
    // KEY_SPACE, KEY_ENTER, KEY_KPENTER
    if code == 57 || code == 28 || code == 96 {
        KeyKind::Terminator
    // KEY_BACKSPACE
    } else if code == 14 {
        KeyKind::Backspace
    // KEY_TAB, KEY_ESC, KEY_HOME ..= KEY_DELETE, BTN_LEFT ..= BTN_MIDDLE
    } else if code == 15 || code == 1 || (102 <= code <= 111) || (0x110 <= code <= 0x112) {
        KeyKind::Reset
    } else {
        text_kind(evdev_english(code), evdev_hebrew(code))
    }
}

pub fn evdev_key_kind(key: EvdevKey) -> (r: KeyKind)
    ensures
        r == linux_kind(key.0),
{
    let code = key.0;
    if code == 57 || code == 28 || code == 96 {
        KeyKind::Terminator
    } else if code == 14 {
        KeyKind::Backspace
    } else if code == 15 || code == 1 || (102 <= code && code <= 111) || (0x110 <= code && code
        <= 0x112) {
        KeyKind::Reset
    } else if evkey_to_english_char(key).is_some() || evkey_to_hebrew_char(key).is_some() {
        KeyKind::Text
    } else {
        KeyKind::Ignored
    }
}

/// How the macOS and Windows listeners treat a key: Space and Return finish
/// the word; Tab, Escape, the arrows, Home, End, Page Up/Down, Insert and
/// Delete drop it.
pub open spec fn key_kind_of(key: Key) -> KeyKind {
    match key {
        Key::Space | Key::Return => KeyKind::Terminator,
        Key::Backspace => KeyKind::Backspace,
        Key::Tab | Key::Escape | Key::LeftArrow | Key::RightArrow | Key::UpArrow | Key::DownArrow
        | Key::Home | Key::End | Key::PageUp | Key::PageDown | Key::Insert
        | Key::Delete => KeyKind::Reset,
        _ => text_kind(key_english(key), key_hebrew(key)),
    }
}

pub fn key_kind(key: Key) -> (r: KeyKind)
    ensures
        r == key_kind_of(key),
{
    match key {
        Key::Space | Key::Return => KeyKind::Terminator,
        Key::Backspace => KeyKind::Backspace,
        Key::Tab | Key::Escape | Key::LeftArrow | Key::RightArrow | Key::UpArrow | Key::DownArrow
        | Key::Home | Key::End | Key::PageUp | Key::PageDown | Key::Insert
        | Key::Delete => KeyKind::Reset,
        _ => {
            if key_to_english_char(key).is_some() || key_to_hebrew_char(key).is_some() {
                KeyKind::Text
            } else {
                KeyKind::Ignored
            }
        },
    }
}

/// `keys` without any occurrence of `key`.
pub open spec fn without_key<K>(keys: Seq<K>, key: K) -> Seq<K>
    decreases keys.len(),
{
    if keys.len() == 0 {
        keys
    } else if keys.last() == key {
        without_key(keys.drop_last(), key)
    } else {
        without_key(keys.drop_last(), key).push(keys.last())
    }
}

/// The word after a key of the given kind edits it (a terminator leaves it
/// as it is).
pub open spec fn edit_word<K>(word: Seq<K>, key: K, kind: KeyKind) -> Seq<K> {
    match kind {
        KeyKind::Text => word.push(key),
        KeyKind::Backspace => if word.len() > 0 {
            word.drop_last()
        } else {
            word
        },
        KeyKind::Reset => Seq::empty(),
        _ => word,
    }
}

/// Two presses of the same key closer than this (in microseconds) are one
/// press reported by two input devices.
pub const DUPLICATE_WINDOW_MICROS: u64 = 5000;

/// How long (in microseconds) a replacement waits at most for the user to
/// release the keys it is about to retype.
pub const HELD_RELEASE_TIMEOUT_MICROS: u64 = 150000;

/// The keys to send to erase a mistyped word and retype it.
pub struct Retype<K> {
    /// Backspaces to send: the word, its terminator and the keys typed since.
    pub erase_count: usize,
    /// The physical keys of the word, retyped in the new layout.
    pub word: Vec<K>,
    /// The Space or Enter that finished the word.
    pub terminator: K,
    /// The keys typed while the replacement was pending, retyped last.
    pub buffered: Vec<K>,
}

/// The listener's state: the word being typed, the keys typed while a
/// replacement is pending, and the keys held down.
pub struct AppState<K> {
    /// The keys of the word being typed.
    pub keys: Vec<K>,
    /// A replacement of a mistyped word is pending.
    pub is_replacing: bool,
    /// The keys typed while a replacement is pending.
    pub buffered_keys: Vec<K>,
    /// The keys held down (a key counts once however often it occurs).
    pub held_keys: Vec<K>,
    /// The last key press accepted, for telling duplicate presses apart.
    pub last_key: Option<K>,
    /// When the last key press was accepted, in microseconds.
    pub last_event_micros: u64,
    /// The keys now arriving are the replacement's own and are not user input.
    pub injecting: bool,
}

/// A copy of `v`.
pub fn copy_keys<K: Copy>(v: &[K]) -> (r: Vec<K>)
    ensures
        r@ == v@,
{
    let mut out: Vec<K> = Vec::new();
    let mut i: usize = 0;
    while i < v.len()
        invariant
            i <= v@.len(),
            out@ == v@.take(i as int),
        decreases v.len() - i,
    {
        out.push(v[i]);
        assert(v@.take(i + 1) =~= v@.take(i as int).push(v@[i as int]));
        i = i + 1;
    }
    assert(v@.take(v.len() as int) =~= v@);
    out
}

/// Whether `keys` holds `key`.
pub fn holds_key<K: LayoutKey>(keys: &[K], key: &K) -> (r: bool)
    ensures
        r == keys@.contains(*key),
{
    let mut i: usize = 0;
    while i < keys.len()
        invariant
            i <= keys@.len(),
            forall|j: int| 0 <= j < i ==> keys@[j] != *key,
        decreases keys.len() - i,
    {
        if keys[i].same_key(key) {
            assert(keys@[i as int] == *key);
            return true;
        }
        i = i + 1;
    }
    false
}

impl<K: LayoutKey> AppState<K> {
    /// The keys held down.
    pub open spec fn held_set(&self) -> Set<K> {
        Set::new(|k: K| self.held_keys@.contains(k))
    }

    /// A press of `key` at `now_micros` repeats the last accepted press within
    /// the duplicate window (a clock that went back counts as no time).
    pub open spec fn is_duplicate(&self, key: K, now_micros: u64) -> bool {
        &&& self.last_key == Some(key)
        &&& (if now_micros >= self.last_event_micros {
            now_micros - self.last_event_micros
        } else {
            0
        }) < DUPLICATE_WINDOW_MICROS
    }

    /// Nothing typed, nothing pending, nothing held.
    pub fn new() -> (r: Self)
        ensures
            r.keys@.len() == 0,
            !r.is_replacing,
            r.buffered_keys@.len() == 0,
            r.held_keys@.len() == 0,
            r.last_key is None,
            r.last_event_micros == 0,
            !r.injecting,
    {
        AppState {
            keys: Vec::new(),
            is_replacing: false,
            buffered_keys: Vec::new(),
            held_keys: Vec::new(),
            last_key: None,
            last_event_micros: 0,
            injecting: false,
        }
    }

    /// Accepts a key press at `now_micros` unless it repeats the last accepted
    /// press within the duplicate window (the same press arriving from two
    /// input devices). An accepted press becomes the last one.
    pub fn accept_press(&mut self, key: K, now_micros: u64) -> (accepted: bool)
        ensures
            accepted == !old(self).is_duplicate(key, now_micros),
            accepted ==> final(self).last_key == Some(key),
            accepted ==> final(self).last_event_micros == now_micros,
            !accepted ==> final(self).last_key == old(self).last_key,
            !accepted ==> final(self).last_event_micros == old(self).last_event_micros,
            final(self).keys == old(self).keys,
            final(self).is_replacing == old(self).is_replacing,
            final(self).buffered_keys == old(self).buffered_keys,
            final(self).held_keys == old(self).held_keys,
            final(self).injecting == old(self).injecting,
    {
        if let Some(last) = self.last_key {
            if last.same_key(&key) {
                let elapsed: u64 = if now_micros >= self.last_event_micros {
                    now_micros - self.last_event_micros
                } else {
                    0
                };
                if elapsed < DUPLICATE_WINDOW_MICROS {
                    return false;
                }
            }
        }
        self.last_event_micros = now_micros;
        self.last_key = Some(key);
        true
    }

    /// Marks `key` as held down.
    fn hold(&mut self, key: K)
        ensures
            final(self).held_set() == old(self).held_set().insert(key),
            final(self).held_keys@ == if old(self).held_keys@.contains(key) {
                old(self).held_keys@
            } else {
                old(self).held_keys@.push(key)
            },
            final(self).keys == old(self).keys,
            final(self).is_replacing == old(self).is_replacing,
            final(self).buffered_keys == old(self).buffered_keys,
            final(self).last_key == old(self).last_key,
            final(self).last_event_micros == old(self).last_event_micros,
            final(self).injecting == old(self).injecting,
    {
        if !holds_key(self.held_keys.as_slice(), &key) {
            let ghost before = self.held_keys@;
            self.held_keys.push(key);
            assert forall|k: K| self.held_keys@.contains(k) <==> before.contains(k) || k == key by {
                if self.held_keys@.contains(k) {
                    let j = choose|j: int| 0 <= j < self.held_keys@.len() && self.held_keys@[j] == k;
                    if j < before.len() {
                        assert(before[j] == k);
                    }
                }
                if before.contains(k) {
                    let j = choose|j: int| 0 <= j < before.len() && before[j] == k;
                    assert(self.held_keys@[j] == k);
                }
                if k == key {
                    assert(self.held_keys@[before.len() as int] == k);
                }
            }
        }
        assert(self.held_set() =~= old(self).held_set().insert(key));
    }

    /// A key press, once accepted. Unless the replacement's own keys are
    /// arriving (then nothing changes), the key is marked as held, and:
    /// while a replacement is pending, it edits the pending keys (a terminator
    /// is kept among them); otherwise it edits the word, except that a
    /// terminator finishes the word: an empty word stays as it is, a word typed
    /// while correction is disabled is dropped, and otherwise the result is
    /// `true`: the word is to be checked (see [`Self::finish_check`]).
    pub fn key_down(&mut self, key: K, kind: KeyKind, control: &AppControl) -> (check_word: bool)
        ensures
            old(self).injecting ==> *final(self) == *old(self) && !check_word,
            !old(self).injecting ==> final(self).held_set() == old(self).held_set().insert(key),
            !old(self).injecting ==> final(self).held_keys@ == if old(self).held_keys@.contains(key) {
                old(self).held_keys@
            } else {
                old(self).held_keys@.push(key)
            },
            !old(self).injecting && old(self).is_replacing ==> {
                &&& final(self).keys@ == old(self).keys@
                &&& final(self).buffered_keys@ == (if kind == KeyKind::Terminator {
                    old(self).buffered_keys@.push(key)
                } else {
                    edit_word(old(self).buffered_keys@, key, kind)
                })
                &&& !check_word
            },
            !old(self).injecting && !old(self).is_replacing ==> {
                &&& final(self).buffered_keys@ == old(self).buffered_keys@
                &&& final(self).keys@ == (if kind != KeyKind::Terminator {
                    edit_word(old(self).keys@, key, kind)
                } else if old(self).keys@.len() > 0 && !control@.enabled {
                    Seq::empty()
                } else {
                    old(self).keys@
                })
                &&& check_word == (kind == KeyKind::Terminator && old(self).keys@.len() > 0
                    && control@.enabled)
            },
            final(self).is_replacing == old(self).is_replacing,
            final(self).last_key == old(self).last_key,
            final(self).last_event_micros == old(self).last_event_micros,
            final(self).injecting == old(self).injecting,
    {
        if self.injecting {
            return false;
        }
        self.hold(key);
        match kind {
            KeyKind::Terminator => {
                if self.is_replacing {
                    self.buffered_keys.push(key);
                    return false;
                }
                if self.keys.len() > 0 {
                    if !control.is_enabled() {
                        self.keys.clear();
                        return false;
                    }
                    return true;
                }
                false
            },
            KeyKind::Backspace => {
                if self.is_replacing {
                    self.buffered_keys.pop();
                } else {
                    self.keys.pop();
                }
                false
            },
            KeyKind::Reset => {
                if self.is_replacing {
                    self.buffered_keys.clear();
                } else {
                    self.keys.clear();
                }
                false
            },
            KeyKind::Text => {
                if self.is_replacing {
                    self.buffered_keys.push(key);
                } else {
                    self.keys.push(key);
                }
                false
            },
            KeyKind::Ignored => false,
        }
    }

    /// A key release: unless the replacement's own keys are arriving, `key`
    /// is no longer held.
    pub fn key_up(&mut self, key: K)
        ensures
            old(self).injecting ==> *final(self) == *old(self),
            !old(self).injecting ==> final(self).held_set() == old(self).held_set().remove(key),
            !old(self).injecting ==> final(self).held_keys@ == without_key(old(self).held_keys@, key),
            final(self).keys == old(self).keys,
            final(self).is_replacing == old(self).is_replacing,
            final(self).buffered_keys == old(self).buffered_keys,
            final(self).last_key == old(self).last_key,
            final(self).last_event_micros == old(self).last_event_micros,
            final(self).injecting == old(self).injecting,
    {
        if self.injecting {
            return ;
        }
        let mut kept: Vec<K> = Vec::new();
        let mut i: usize = 0;
        while i < self.held_keys.len()
            invariant
                i <= self.held_keys@.len(),
                forall|k: K|
                    kept@.contains(k) <==> (self.held_keys@.take(i as int).contains(k) && k != key),
                kept@ == without_key(self.held_keys@.take(i as int), key),
            decreases self.held_keys.len() - i,
        {
            let k = self.held_keys[i];
            let ghost before = kept@;
            let ghost prefix = self.held_keys@.take(i as int);
            assert(self.held_keys@.take(i + 1) =~= prefix.push(k));
            assert(prefix.push(k).drop_last() =~= prefix);
            if !k.same_key(&key) {
                kept.push(k);
            }
            assert forall|x: K|
                kept@.contains(x) <==> (self.held_keys@.take(i + 1).contains(x) && x != key) by {
                if kept@.contains(x) {
                    let j = choose|j: int| 0 <= j < kept@.len() && kept@[j] == x;
                    if j < before.len() {
                        assert(before[j] == x);
                    }
                }
                if before.contains(x) {
                    let j = choose|j: int| 0 <= j < before.len() && before[j] == x;
                    assert(kept@[j] == x);
                }
                let ext = prefix.push(k);
                if ext.contains(x) {
                    let j = choose|j: int| 0 <= j < ext.len() && #[trigger] ext[j] == x;
                    if j < i {
                        assert(prefix[j] == x);
                    }
                }
                if prefix.contains(x) {
                    let j = choose|j: int| 0 <= j < prefix.len() && prefix[j] == x;
                    assert(ext[j] == x);
                }
                if x == k {
                    assert(ext[i as int] == x);
                    if x != key {
                        assert(kept@[kept@.len() - 1] == x);
                    }
                }
            }
            i = i + 1;
        }
        assert(self.held_keys@.take(self.held_keys@.len() as int) =~= self.held_keys@);
        self.held_keys = kept;
        assert(self.held_set() =~= old(self).held_set().remove(key));
    }

    /// A mouse click: unless the replacement's own keys are arriving, the
    /// pending keys are dropped while a replacement is pending, and the word
    /// otherwise.
    pub fn click(&mut self)
        ensures
            old(self).injecting ==> *final(self) == *old(self),
            !old(self).injecting && old(self).is_replacing ==> final(self).buffered_keys@.len()
                == 0 && final(self).keys == old(self).keys,
            !old(self).injecting && !old(self).is_replacing ==> final(self).keys@.len() == 0
                && final(self).buffered_keys == old(self).buffered_keys,
            final(self).is_replacing == old(self).is_replacing,
            final(self).held_keys == old(self).held_keys,
            final(self).last_key == old(self).last_key,
            final(self).last_event_micros == old(self).last_event_micros,
            final(self).injecting == old(self).injecting,
    {
        if self.injecting {
            return ;
        }
        if self.is_replacing {
            self.buffered_keys.clear();
        } else {
            self.keys.clear();
        }
    }

    /// Marks whether the keys now arriving are the replacement's own.
    pub fn set_injecting(&mut self, injecting: bool)
        ensures
            final(self).injecting == injecting,
            final(self).keys == old(self).keys,
            final(self).is_replacing == old(self).is_replacing,
            final(self).buffered_keys == old(self).buffered_keys,
            final(self).held_keys == old(self).held_keys,
            final(self).last_key == old(self).last_key,
            final(self).last_event_micros == old(self).last_event_micros,
    {
        self.injecting = injecting;
    }

    /// Ends the check of a finished word with the result of the layout-switch
    /// search: `Some(start)` when the layout was switched for the word
    /// starting at `keys[start]`. The word is cleared. When the layout was
    /// switched, a fix is counted, a replacement becomes pending, and the
    /// result is the keys to retype, `keys[start..]`; the keys before them are
    /// an earlier word that was typed without a space and stay as typed.
    pub fn finish_check(&mut self, start: Option<usize>, control: &mut AppControl) -> (word:
        Option<Vec<K>>)
        requires
            start matches Some(s) ==> s < old(self).keys@.len(),
        ensures
            final(self).keys@.len() == 0,
            word is Some <==> start is Some,
            word matches Some(w) ==> w@ == old(self).keys@.subrange(
                start->0 as int,
                old(self).keys@.len() as int,
            ),
            start is Some ==> final(self).is_replacing,
            start is Some ==> final(control)@.fixed_count == wrapping_successor(
                old(control)@.fixed_count,
            ),
            start is None ==> final(self).is_replacing == old(self).is_replacing,
            start is None ==> final(control)@.fixed_count == old(control)@.fixed_count,
            final(control)@.enabled == old(control)@.enabled,
            final(self).buffered_keys == old(self).buffered_keys,
            final(self).held_keys == old(self).held_keys,
            final(self).last_key == old(self).last_key,
            final(self).last_event_micros == old(self).last_event_micros,
            final(self).injecting == old(self).injecting,
    {
        let result = match start {
            Some(s) => {
                control.record_fix();
                self.is_replacing = true;
                let len: usize = self.keys.len();
                let mut word: Vec<K> = Vec::new();
                let mut i: usize = s;
                while i < len
                    invariant
                        s <= i <= len == self.keys@.len(),
                        word@ == self.keys@.subrange(s as int, i as int),
                    decreases len - i,
                {
                    word.push(self.keys[i]);
                    assert(self.keys@.subrange(s as int, i + 1) =~= self.keys@.subrange(
                        s as int,
                        i as int,
                    ).push(self.keys@[i as int]));
                    i = i + 1;
                }
                Some(word)
            },
            None => None,
        };
        self.keys.clear();
        result
    }

    /// Whether a pending replacement should keep waiting before it retypes
    /// `word` and `terminator`: while one of them is still held down (the
    /// system would take the retyped press for a repeat of the held key),
    /// until `elapsed_micros` reaches the timeout.
    pub fn keep_waiting(&self, word: &[K], terminator: K, elapsed_micros: u64) -> (r: bool)
        ensures
            r == (elapsed_micros < HELD_RELEASE_TIMEOUT_MICROS && (self.held_set().contains(
                terminator,
            ) || exists|i: int| 0 <= i < word@.len() && self.held_set().contains(word@[i]))),
    {
        let mut still_held = holds_key(self.held_keys.as_slice(), &terminator);
        let mut i: usize = 0;
        while i < word.len() && !still_held
            invariant
                i <= word@.len(),
                still_held == (self.held_keys@.contains(terminator) || exists|j: int|
                    0 <= j < i && self.held_keys@.contains(word@[j])),
            decreases word.len() - i,
        {
            if holds_key(self.held_keys.as_slice(), &word[i]) {
                still_held = true;
            }
            i = i + 1;
        }
        assert(still_held == (self.held_set().contains(terminator) || exists|i: int|
            0 <= i < word@.len() && self.held_set().contains(word@[i])));
        still_held && elapsed_micros < HELD_RELEASE_TIMEOUT_MICROS
    }

    /// The keys to send for a pending replacement of `word`, finished by
    /// `terminator`: backspaces over the word, its terminator and the keys
    /// typed since, then the word, the terminator and those keys again.
    pub fn retype_plan(&self, word: Vec<K>, terminator: K) -> (r: Retype<K>)
        requires
            word@.len() + self.buffered_keys@.len() + 1 <= usize::MAX,
        ensures
            r.erase_count == word@.len() + 1 + self.buffered_keys@.len(),
            r.word == word,
            r.terminator == terminator,
            r.buffered@ == self.buffered_keys@,
    {
        let buffered = copy_keys(self.buffered_keys.as_slice());
        let erase_count: usize = word.len() + 1 + buffered.len();
        Retype { erase_count, word, terminator, buffered }
    }

    /// Ends a replacement: the keys typed while it was pending (as they were
    /// when it retyped them) become the word being typed, nothing is pending,
    /// and the next press is not taken for a duplicate.
    pub fn finish_replacement(&mut self, buffered: Vec<K>)
        ensures
            final(self).keys@ == buffered@,
            final(self).buffered_keys@.len() == 0,
            !final(self).is_replacing,
            final(self).last_key is None,
            !final(self).injecting,
            final(self).held_keys == old(self).held_keys,
            final(self).last_event_micros == old(self).last_event_micros,
    {
        self.keys = buffered;
        self.buffered_keys.clear();
        self.is_replacing = false;
        self.last_key = None;
        self.injecting = false;
    }
}

/// Whichever listener reports a key, it does the same to the word: the
/// macOS / Windows classification agrees with the Linux one on every key that
/// both name. In particular every cursor or focus key (Tab, Escape, the four
/// arrows, Home, End, Page Up/Down, Insert, Delete) drops the word.
pub proof fn law_key_kinds_agree_with_linux(key: Key)
    ensures
        evdev_counterpart(key) matches Some(code) ==> key_kind_of(key) == linux_kind(code),
        (key == Key::Tab || key == Key::Escape || key == Key::LeftArrow || key == Key::RightArrow
            || key == Key::UpArrow || key == Key::DownArrow || key == Key::Home || key == Key::End
            || key == Key::PageUp || key == Key::PageDown || key == Key::Insert || key
            == Key::Delete) ==> key_kind_of(key) == KeyKind::Reset,
        key == Key::Space || key == Key::Return ==> key_kind_of(key) == KeyKind::Terminator,
        key == Key::Backspace ==> key_kind_of(key) == KeyKind::Backspace,
{
}

/// On Linux, every cursor or focus key (KEY_TAB 15, KEY_ESC 1, KEY_HOME 102,
/// KEY_UP 103, KEY_PAGEUP 104, KEY_LEFT 105, KEY_RIGHT 106, KEY_END 107,
/// KEY_DOWN 108, KEY_PAGEDOWN 109, KEY_INSERT 110, KEY_DELETE 111) and every
/// mouse button click (BTN_LEFT, BTN_RIGHT, BTN_MIDDLE) drops the word; Space,
/// Enter and keypad Enter finish it; Backspace deletes its last key.
pub proof fn law_linux_word_boundaries(code: u16)
    ensures
        (code == 15 || code == 1 || code == 102 || code == 103 || code == 104 || code == 105
            || code == 106 || code == 107 || code == 108 || code == 109 || code == 110 || code
            == 111 || code == 0x110 || code == 0x111 || code == 0x112) ==> linux_kind(code)
            == KeyKind::Reset,
        (code == 57 || code == 28 || code == 96) ==> linux_kind(code) == KeyKind::Terminator,
        code == 14 ==> linux_kind(code) == KeyKind::Backspace,
{
}

} // verus!
