use vstd::prelude::*;

use crate::text::chars_of;

verus! {

/// The label of the menu entry that toggles correction: it names the action
/// that choosing it performs.
pub fn toggle_label(enabled: bool) -> (r: &'static str)
    ensures
        enabled ==> r@ == "Disable"@,
        !enabled ==> r@ == "Enable"@,
{
    if enabled {
        "Disable"
    } else {
        "Enable"
    }
}

/// The side length, in pixels, of the tray icon.
pub const ICON_SIZE: u32 = 16;

/// One pixel of the tray icon, as red, green, blue and alpha bytes.
pub open spec fn icon_pixel() -> Seq<u8> {
    seq![20u8, 120u8, 200u8, 255u8]
}

/// The RGBA bytes of the tray icon: `ICON_SIZE * ICON_SIZE` pixels of one
/// opaque blue.
pub fn placeholder_icon_rgba() -> (r: Vec<u8>)
    ensures
        r@.len() == ICON_SIZE * ICON_SIZE * 4,
        forall|i: int| 0 <= i < r@.len() ==> #[trigger] r@[i] == icon_pixel()[i % 4],
{
    let count: u32 = ICON_SIZE * ICON_SIZE;
    let mut rgba: Vec<u8> = Vec::with_capacity((count * 4) as usize);
    let mut p: u32 = 0;
    while p < count
        invariant
            count == ICON_SIZE * ICON_SIZE,
            p <= count,
            rgba@.len() == p * 4,
            forall|i: int| 0 <= i < rgba@.len() ==> #[trigger] rgba@[i] == icon_pixel()[i % 4],
        decreases count - p,
    {
        let ghost before = rgba@;
        rgba.push(20);
        rgba.push(120);
        rgba.push(200);
        rgba.push(255);
        assert forall|i: int| 0 <= i < rgba@.len() implies #[trigger] rgba@[i] == icon_pixel()[i
            % 4] by {
            if i < before.len() {
                assert(rgba@[i] == before[i]);
            } else {
                assert(i - before.len() == i % 4) by (nonlinear_arith)
                    requires
                        before.len() == p * 4,
                        before.len() <= i < before.len() + 4,
                ;
            }
        }
        p = p + 1;
    }
    rgba
}

/// The name of the virtual input device through which corrected words are
/// typed.
pub fn injector_name() -> (r: &'static str)
    ensures
        r@ == "typeLan-injector"@,
{
    "typeLan-injector"
}

fn same_chars(a: &[char], b: &[char]) -> (r: bool)
    ensures
        r == (a@ == b@),
{
    if a.len() != b.len() {
        return false;
    }
    let mut i: usize = 0;
    while i < a.len()
        invariant
            a@.len() == b@.len(),
            i <= a@.len(),
            forall|j: int| 0 <= j < i ==> a@[j] == b@[j],
        decreases a.len() - i,
    {
        if a[i] != b[i] {
            return false;
        }
        i = i + 1;
    }
    assert(a@ =~= b@);
    true
}

/// Whether the Linux listener reads an input device: any keyboard (it has a
/// letter key) or mouse (it has a left button), except the listener's own
/// virtual device.
pub fn listens_to_device(name: Option<&str>, has_letter_key: bool, has_left_button: bool) -> (r:
    bool)
    ensures
        r == (!(name matches Some(n) && n@ == "typeLan-injector"@) && (has_letter_key
            || has_left_button)),
{
    let own = match name {
        Some(n) => {
            let a = chars_of(n);
            let b = chars_of(injector_name());
            same_chars(a.as_slice(), b.as_slice())
        },
        None => false,
    };
    !own && (has_letter_key || has_left_button)
}

/// What a key event of the Linux input layer reports.
#[derive(Clone, Copy, Debug, PartialEq, Eq, Structural)]
pub enum KeyTransition {
    Press,
    Release,
}

/// Reads the value of a Linux key event: 1 is a press, 0 a release; anything
/// else (2, auto-repeat) is neither.
pub fn evdev_key_transition(value: i32) -> (r: Option<KeyTransition>)
    ensures
        value == 1 ==> r == Some(KeyTransition::Press),
        value == 0 ==> r == Some(KeyTransition::Release),
        value != 0 && value != 1 ==> r is None,
{
    if value == 1 {
        Some(KeyTransition::Press)
    } else if value == 0 {
        Some(KeyTransition::Release)
    } else {
        None
    }
}

} // verus!
