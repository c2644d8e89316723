use typelan::layout::{
    active_layouts, classify_keymap, find_installed_layout, hyprland_layout_index,
    input_source_language_code, layout_already_active, layout_handle_language,
    windows_language_id, windows_layout_ids, ActiveLayouts,
};
use typelan::platform::{
    evdev_key_transition, injector_name, listens_to_device, placeholder_icon_rgba, toggle_label,
    KeyTransition, ICON_SIZE,
};
use typelan::types::Language;

const DEVICES_HEBREW: &str = r#"{
    "mice": [
        {
            "address": "0x1",
            "name": "some-mouse"
        }
    ],
    "keyboards": [
        {
            "address": "0x2",
            "name": "power-button",
            "active_keymap": "English (US)",
            "main": false
        },
        {
            "address": "0x3",
            "name": "at-translated-set-2-keyboard",
            "layout": "us,il",
            "active_keymap": "Hebrew",
            "capsLock": false,
            "main": true
        }
    ]
}"#;

#[test]
fn main_keyboard_layout_is_read() {
    let active = active_layouts(DEVICES_HEBREW);
    assert_eq!(active, ActiveLayouts { hebrew: true, english: false });
}

#[test]
fn english_main_keyboard_without_space() {
    let devices = r#"[{"name":"kbd","active_keymap":"English (US)","main":true}]"#;
    assert_eq!(active_layouts(devices), ActiveLayouts { hebrew: false, english: true });
}

#[test]
fn keyboards_that_are_not_main_are_ignored() {
    let devices = r#"[{"name":"kbd","active_keymap":"Hebrew","main": false}]"#;
    assert_eq!(active_layouts(devices), ActiveLayouts { hebrew: false, english: false });
    assert_eq!(active_layouts(""), ActiveLayouts { hebrew: false, english: false });
    assert_eq!(active_layouts("not json at all"), ActiveLayouts { hebrew: false, english: false });
}

#[test]
fn unterminated_keymap_value_reports_nothing() {
    let devices = r#"{"main": true, "active_keymap": "Hebrew"#;
    assert_eq!(active_layouts(devices), ActiveLayouts { hebrew: false, english: false });
}

#[test]
fn keymap_names_are_classified() {
    assert_eq!(classify_keymap("hebrew"), Some(Language::Hebrew));
    assert_eq!(classify_keymap("il"), Some(Language::Hebrew));
    assert_eq!(classify_keymap("english (us)"), Some(Language::English));
    assert_eq!(classify_keymap("russian"), Some(Language::English));
    assert_eq!(classify_keymap("german"), None);
    // the check is on the lower-cased name
    assert_eq!(classify_keymap("German"), None);
    // "brazilian" mentions "il"
    assert_eq!(classify_keymap("portuguese (brazilian)"), Some(Language::Hebrew));
}

#[test]
fn keymap_name_is_lowercased_before_classifying() {
    let devices = r#"{"active_keymap": "HEBREW", "main": true}"#;
    assert_eq!(active_layouts(devices), ActiveLayouts { hebrew: true, english: false });
    let devices = r#"{"active_keymap": "ENGLISH", "main": true}"#;
    assert_eq!(active_layouts(devices), ActiveLayouts { hebrew: false, english: true });
}

#[test]
fn several_main_keyboards_can_report_both() {
    let devices = r#"{"active_keymap": "Hebrew", "main": true},{"active_keymap": "English", "main":true}"#;
    assert_eq!(active_layouts(devices), ActiveLayouts { hebrew: true, english: true });
}

#[test]
fn switch_is_skipped_when_already_active() {
    let hebrew = ActiveLayouts { hebrew: true, english: false };
    assert!(layout_already_active(Language::Hebrew, hebrew));
    assert!(!layout_already_active(Language::English, hebrew));
    let none = ActiveLayouts { hebrew: false, english: false };
    assert!(!layout_already_active(Language::Hebrew, none));
    assert!(!layout_already_active(Language::English, none));
}

#[test]
fn layout_identifiers() {
    assert_eq!(hyprland_layout_index(Language::English), "0");
    assert_eq!(hyprland_layout_index(Language::Hebrew), "1");
    assert_eq!(input_source_language_code(Language::English), "en");
    assert_eq!(input_source_language_code(Language::Hebrew), "he");
    assert_eq!(windows_language_id(Language::English), 0x0409);
    assert_eq!(windows_language_id(Language::Hebrew), 0x040d);
    assert_eq!(windows_layout_ids(Language::English), vec!["00000409"]);
    assert_eq!(windows_layout_ids(Language::Hebrew), vec!["0002040d", "0000040d"]);
}

#[test]
fn layout_handles() {
    assert_eq!(layout_handle_language(0x0409_0409), 0x0409);
    assert_eq!(layout_handle_language(-0x0fc0_fbf3), 0x040d);
    assert_eq!(layout_handle_language(-1), 0xffff);
    let installed = [0x0409_0409isize, 0x040d_040d, 0x0002_040d];
    assert_eq!(find_installed_layout(&installed, 0x040d), Some(0x040d_040d));
    assert_eq!(find_installed_layout(&installed, 0x0409), Some(0x0409_0409));
    assert_eq!(find_installed_layout(&installed, 0x0419), None);
    assert_eq!(find_installed_layout(&[], 0x0409), None);
}

#[test]
fn tray_label_names_the_action() {
    assert_eq!(toggle_label(true), "Disable");
    assert_eq!(toggle_label(false), "Enable");
}

#[test]
fn tray_icon_pixels() {
    let rgba = placeholder_icon_rgba();
    assert_eq!(ICON_SIZE, 16);
    assert_eq!(rgba.len(), 16 * 16 * 4);
    for px in rgba.chunks(4) {
        assert_eq!(px, &[20, 120, 200, 255]);
    }
}

#[test]
fn listened_devices() {
    assert_eq!(injector_name(), "typeLan-injector");
    assert!(listens_to_device(Some("AT keyboard"), true, false));
    assert!(listens_to_device(Some("mouse"), false, true));
    assert!(listens_to_device(None, true, true));
    assert!(!listens_to_device(Some("lid switch"), false, false));
    assert!(!listens_to_device(Some("typeLan-injector"), true, false));
    assert!(listens_to_device(Some("typeLan-injector2"), true, false));
}

#[test]
fn key_event_values() {
    assert_eq!(evdev_key_transition(1), Some(KeyTransition::Press));
    assert_eq!(evdev_key_transition(0), Some(KeyTransition::Release));
    assert_eq!(evdev_key_transition(2), None);
    assert_eq!(evdev_key_transition(-1), None);
}
