# typelan

A typing helper that watches key presses, recognises a word typed in the wrong
keyboard layout (English / Hebrew), switches the layout and retypes the word.

The decisions are a library verified with Verus (`src/`); the program around it
(`app/`) listens to the keyboard, runs the layout switch of each operating
system and injects the retyped keys.

- `src/types.rs`: the layout languages and the shared on/off switch and fix
  counter.
- `src/text.rs`: character-level text operations (white space, trimming, ASCII
  lower-casing, splitting, searching).
- `src/dictionary.rs`: word lists, Hebrew prefix matching, the per-word layout
  decision.
- `src/keymap.rs`: what each physical key types in either layout (Linux event
  codes, and the key names of macOS / Windows), macOS virtual key codes.
- `src/search.rs`: the search for the layout to switch to over a finished key
  sequence, including the split point of two words typed without a space.
- `src/tracker.rs`: the listener's state machine: the word being typed, the
  keys typed while a replacement is pending, held keys, and the plan of a
  replacement.
- `src/layout.rs`: reading the compositor's device list, layout identifiers of
  the three systems.
- `src/platform.rs`: tray label and icon, device selection, key event values.

The word lists `en_dict.txt` and `he_dict.txt` (one word per line) are read
from the working directory. Set `TYPELAN_DEBUG=1` to print each word check.
