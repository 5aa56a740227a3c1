//! The settings that the clipboard monitor and the visibility controller
//! read. They are plain records: whoever loads the configuration fills them.

use vstd::prelude::*;
use vstd::string::*;

verus! {

/// Where the popup window stands and how it moves.
#[derive(Debug)]
pub struct WindowSettings {
    /// The screen edge the window is anchored to: `top`, `bottom`, `left` or
    /// `right`.
    pub window_position: String,
    /// The window's thickness perpendicular to the edge, in pixels.
    pub window_secondary_size: i32,
    pub window_padding_x: i32,
    pub window_padding_y: i32,
    /// The duration of one slide, in milliseconds.
    pub window_animation_duration: u64,
    /// The number of steps of one slide.
    pub window_steps: u64,
    /// The exponent of the easing curve.
    pub ease_factor: i32,
    pub reset_scroll_on_show: bool,
}

impl Default for WindowSettings {
    fn default() -> (settings: Self)
        ensures
            settings.window_position@ == "bottom"@,
            settings.window_secondary_size == 250,
            settings.window_padding_x == 0,
            settings.window_padding_y == 50,
            settings.window_animation_duration == 100,
            settings.window_steps == 30,
            settings.ease_factor == 1,
            settings.reset_scroll_on_show,
    {
        WindowSettings {
            window_position: "bottom".to_owned(),
            window_secondary_size: 250,
            window_padding_x: 0,
            window_padding_y: 50,
            window_animation_duration: 100,
            window_steps: 30,
            ease_factor: 1,
            reset_scroll_on_show: true,
        }
    }
}

/// What happens to the history and the window when an entry is copied back,
/// and how much of an entry is shown.
#[derive(Clone, Copy, Debug)]
pub struct ClipboardPolicy {
    /// Copying an entry back removes it from the history, so that the
    /// monitor records it anew as the latest entry.
    pub window_rewrite_history_on_copy: bool,
    pub auto_hide_on_copy: bool,
    pub auto_paste_on_copy: bool,
    /// The number of characters shown of an entry; a negative number shows
    /// it whole.
    pub max_displayed_characters: i32,
}

impl Default for ClipboardPolicy {
    fn default() -> (policy: Self)
        ensures
            !policy.window_rewrite_history_on_copy,
            policy.auto_hide_on_copy,
            !policy.auto_paste_on_copy,
            policy.max_displayed_characters == 250,
    {
        ClipboardPolicy {
            window_rewrite_history_on_copy: false,
            auto_hide_on_copy: true,
            auto_paste_on_copy: false,
            max_displayed_characters: 250,
        }
    }
}

} // verus!
