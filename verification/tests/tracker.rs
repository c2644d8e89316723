use typelan::keymap::{EvdevKey, Key};
use typelan::tracker::{evdev_key_kind, key_kind, AppState, KeyKind};
use typelan::types::AppControl;

const A: EvdevKey = EvdevKey(30);
const S: EvdevKey = EvdevKey(31);
const D: EvdevKey = EvdevKey(32);
const SPACE: EvdevKey = EvdevKey(57);
const ENTER: EvdevKey = EvdevKey(28);
const BACKSPACE: EvdevKey = EvdevKey(14);
const TAB: EvdevKey = EvdevKey(15);
const SHIFT: EvdevKey = EvdevKey(42);

fn press(st: &mut AppState<EvdevKey>, key: EvdevKey, control: &AppControl) -> bool {
    st.key_down(key, evdev_key_kind(key), control)
}

#[test]
fn typing_builds_the_word() {
    let control = AppControl::new();
    let mut st = AppState::new();
    assert!(!press(&mut st, A, &control));
    assert!(!press(&mut st, S, &control));
    assert!(!press(&mut st, SHIFT, &control));
    assert_eq!(st.keys, vec![A, S]);
    assert!(!press(&mut st, BACKSPACE, &control));
    assert_eq!(st.keys, vec![A]);
    assert!(!press(&mut st, TAB, &control));
    assert!(st.keys.is_empty());
    assert!(!press(&mut st, BACKSPACE, &control));
    assert!(st.keys.is_empty());
}

#[test]
fn terminator_asks_for_a_check() {
    let control = AppControl::new();
    let mut st = AppState::new();
    assert!(!press(&mut st, SPACE, &control));
    press(&mut st, A, &control);
    assert!(press(&mut st, SPACE, &control));
    assert_eq!(st.keys, vec![A]);
}

#[test]
fn disabled_correction_drops_the_word() {
    let mut control = AppControl::new();
    control.set_enabled(false);
    let mut st = AppState::new();
    press(&mut st, A, &control);
    assert!(!press(&mut st, ENTER, &control));
    assert!(st.keys.is_empty());
}

#[test]
fn finished_check_without_switch_clears_the_word() {
    let mut control = AppControl::new();
    let mut st = AppState::new();
    press(&mut st, A, &control);
    assert!(press(&mut st, SPACE, &control));
    assert_eq!(st.finish_check(None, &mut control), None);
    assert!(st.keys.is_empty());
    assert!(!st.is_replacing);
    assert_eq!(control.fixed_count(), 0);
}

#[test]
fn replacement_flow() {
    let mut control = AppControl::new();
    let mut st = AppState::new();
    for k in [A, S, D] {
        press(&mut st, k, &control);
    }
    assert!(press(&mut st, SPACE, &control));
    let word = st.finish_check(Some(1), &mut control).unwrap();
    assert_eq!(word, vec![S, D]);
    assert!(st.is_replacing);
    assert!(st.keys.is_empty());
    assert_eq!(control.fixed_count(), 1);
    // keys typed meanwhile are held back
    assert!(!press(&mut st, A, &control));
    assert!(!press(&mut st, SPACE, &control));
    assert!(!press(&mut st, S, &control));
    assert!(!press(&mut st, BACKSPACE, &control));
    assert_eq!(st.buffered_keys, vec![A, SPACE]);
    assert!(st.keys.is_empty());
    let plan = st.retype_plan(word, SPACE);
    assert_eq!(plan.erase_count, 2 + 1 + 2);
    assert_eq!(plan.word, vec![S, D]);
    assert_eq!(plan.terminator, SPACE);
    assert_eq!(plan.buffered, vec![A, SPACE]);
    // a key typed after the plan was made is lost, as the retype did not cover it
    press(&mut st, D, &control);
    st.finish_replacement(plan.buffered);
    assert_eq!(st.keys, vec![A, SPACE]);
    assert!(st.buffered_keys.is_empty());
    assert!(!st.is_replacing);
    assert_eq!(st.last_key, None);
}

#[test]
fn reset_while_replacing_clears_pending_keys_only() {
    let mut control = AppControl::new();
    let mut st = AppState::new();
    press(&mut st, A, &control);
    press(&mut st, SPACE, &control);
    st.finish_check(Some(0), &mut control);
    press(&mut st, S, &control);
    press(&mut st, TAB, &control);
    assert!(st.buffered_keys.is_empty());
    press(&mut st, S, &control);
    st.click();
    assert!(st.buffered_keys.is_empty());
}

#[test]
fn click_clears_the_word() {
    let control = AppControl::new();
    let mut st = AppState::new();
    press(&mut st, A, &control);
    st.click();
    assert!(st.keys.is_empty());
}

#[test]
fn held_keys_follow_presses_and_releases() {
    let control = AppControl::new();
    let mut st = AppState::new();
    press(&mut st, A, &control);
    press(&mut st, A, &control);
    press(&mut st, SHIFT, &control);
    assert_eq!(st.held_keys, vec![A, SHIFT]);
    st.key_up(A);
    assert_eq!(st.held_keys, vec![SHIFT]);
    st.key_up(D);
    assert_eq!(st.held_keys, vec![SHIFT]);
}

#[test]
fn waiting_for_release() {
    let control = AppControl::new();
    let mut st = AppState::new();
    press(&mut st, S, &control);
    press(&mut st, SPACE, &control);
    assert!(st.keep_waiting(&[A, S], SPACE, 0));
    st.key_up(SPACE);
    assert!(st.keep_waiting(&[A, S], SPACE, 1000));
    assert!(!st.keep_waiting(&[A, S], SPACE, 150_000));
    st.key_up(S);
    assert!(!st.keep_waiting(&[A, S], SPACE, 0));
}

#[test]
fn duplicate_presses_are_dropped() {
    let mut st: AppState<EvdevKey> = AppState::new();
    assert!(st.accept_press(A, 1_000));
    assert!(!st.accept_press(A, 5_999));
    assert!(st.accept_press(A, 6_000));
    assert!(st.accept_press(S, 6_001));
    assert!(st.accept_press(A, 6_002));
    // a clock that went back counts as no time
    assert!(!st.accept_press(A, 10));
    assert_eq!(st.last_event_micros, 6_002);
    st.finish_replacement(Vec::new());
    assert!(st.accept_press(A, 6_003));
}

#[test]
fn own_keys_are_ignored_while_injecting() {
    let control = AppControl::new();
    let mut st: AppState<Key> = AppState::new();
    st.key_down(Key::KeyA, key_kind(Key::KeyA), &control);
    st.set_injecting(true);
    assert!(!st.key_down(Key::Space, key_kind(Key::Space), &control));
    st.key_up(Key::KeyA);
    st.click();
    assert_eq!(st.keys, vec![Key::KeyA]);
    assert_eq!(st.held_keys, vec![Key::KeyA]);
    st.finish_replacement(vec![Key::KeyS]);
    assert!(!st.injecting);
    assert_eq!(st.keys, vec![Key::KeyS]);
}

#[test]
fn ignored_keys_change_nothing_but_held() {
    let control = AppControl::new();
    let mut st: AppState<EvdevKey> = AppState::new();
    press(&mut st, A, &control);
    assert!(!st.key_down(SHIFT, KeyKind::Ignored, &control));
    assert_eq!(st.keys, vec![A]);
}

#[test]
fn control_counts_fixes() {
    let mut control = AppControl::new();
    assert!(control.is_enabled());
    assert_eq!(control.fixed_count(), 0);
    control.record_fix();
    control.record_fix();
    assert_eq!(control.fixed_count(), 2);
    control.set_enabled(false);
    assert!(!control.is_enabled());
    assert_eq!(control.fixed_count(), 2);
    control.set_enabled(true);
    assert!(control.is_enabled());
}
