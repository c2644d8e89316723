//! Layout-switching decisions for a typing helper that watches key presses,
//! recognises words typed in the wrong keyboard layout (English / Hebrew) and
//! asks for the layout to be switched and the word to be retyped.

pub mod types;
pub mod text;
pub mod dictionary;
pub mod keymap;
pub mod search;
pub mod tracker;
pub mod layout;
pub mod platform;
