//! Where the settings screen and its host meet in the store.

use crate::path::{path3, path4, path5, Path};
use vstd::prelude::*;

verus! {

/// Where the cursor is kept.
pub fn cursor_path() -> (r: Path)
    ensures
        r@ == seq!["ui"@, "settings"@, "focused"@],
{
    path3("ui", "settings", "focused")
}

/// Below this the host puts its input.
pub fn input_path() -> (r: Path)
    ensures
        r@ == seq!["ui"@, "_horns"@, "settings"@, "input"@],
{
    path4("ui", "_horns", "settings", "input")
}

/// Where the host puts a keystroke.
pub fn input_key_path() -> (r: Path)
    ensures
        r@ == seq!["ui"@, "_horns"@, "settings"@, "input"@, "key"@],
{
    path5("ui", "_horns", "settings", "input", "key")
}

/// Where the host puts the size of the terminal.
pub fn input_area_path() -> (r: Path)
    ensures
        r@ == seq!["ui"@, "_horns"@, "settings"@, "input"@, "area"@],
{
    path5("ui", "_horns", "settings", "input", "area")
}

/// Where what is to be shown is put.
pub fn render_output_path() -> (r: Path)
    ensures
        r@ == seq!["ui"@, "_horns"@, "settings"@, "render"@, "output"@],
{
    path5("ui", "_horns", "settings", "render", "output")
}

/// What is written to have the screen drawn again.
pub fn render_tick_path() -> (r: Path)
    ensures
        r@ == seq!["ui"@, "_horns"@, "settings"@, "render"@, "tick"@],
{
    path5("ui", "_horns", "settings", "render", "tick")
}

/// Where the theme is put.
pub fn theme_path() -> (r: Path)
    ensures
        r@ == seq!["ui"@, "_horns"@, "theme"@],
{
    path3("ui", "_horns", "theme")
}

/// Below this the bindings are listed.
pub fn bindings_prefix() -> (r: Path)
    ensures
        r@ == seq!["horns"@, "settings"@, "bindings"@],
{
    path3("horns", "settings", "bindings")
}

/// Below this the commands are listed.
pub fn commands_prefix() -> (r: Path)
    ensures
        r@ == seq!["horns"@, "settings"@, "commands"@],
{
    path3("horns", "settings", "commands")
}

} // verus!
