use vstd::prelude::*;

use crate::text::{
    chars_of, lowercase_of, same_chars, split_chars, split_seq, string_of, to_lowercase, trim_seq,
};

verus! {

// ---------------------------------------------------------------------------
// The configured shortcut
// ---------------------------------------------------------------------------

/// The shortcut text that the configuration gives: the stored text trimmed, or
/// "ctrl+space" when it could not be read.
pub open spec fn shortcut_text_spec(stored: Option<Seq<char>>) -> Seq<char> {
    match stored {
        Some(t) => trim_seq(t),
        None => "ctrl+space"@,
    }
}

/// The shortcut text, from the stored configuration when it could be read.
pub fn shortcut_from_config(stored: Option<&str>) -> (r: String)
    ensures
        r@ == shortcut_text_spec(
            match stored {
                Some(t) => Some(t@),
                None => None,
            },
        ),
{
    match stored {
        Some(t) => crate::text::trim(t),
        None => String::from_str("ctrl+space"),
    }
}

/// Saving the shortcut text that is shown and reading it back gives the same text: the
/// text read is trimmed, and trimming again changes nothing.
pub proof fn lemma_shortcut_text_stable(stored: Option<Seq<char>>)
    ensures
        shortcut_text_spec(Some(shortcut_text_spec(stored))) == shortcut_text_spec(stored),
{
    match stored {
        Some(t) => {
            crate::text::lemma_trim_idempotent(t);
        },
        None => {
            reveal_strlit("ctrl+space");
            let d = "ctrl+space"@;
            crate::text::lemma_trim_start_shape(d);
            crate::text::lemma_trim_end_shape(d);
        },
    }
}

/// The keys the launcher tells apart.
#[derive(PartialEq, Eq, Structural, Clone, Copy)]
pub enum Key {
    Alt,
    ControlLeft,
    ControlRight,
    Space,
    KeyL,
    KeyP,
    /// Any other key.
    Other,
}

/// The shortcut that shows or hides the launcher: a modifier (Ctrl or Alt) and a key.
#[derive(PartialEq, Eq, Structural, Clone, Copy)]
pub struct Shortcut {
    pub use_ctrl: bool,
    pub key: Key,
}

/// The key named by the lowercase text `name`: space, L or P; space for any other name.
pub open spec fn key_named(name: Seq<char>) -> Key {
    if name == "l"@ {
        Key::KeyL
    } else if name == "p"@ {
        Key::KeyP
    } else {
        Key::Space
    }
}

/// The shortcut that a text such as "ctrl+space" or "alt+l" describes: Ctrl when the part
/// before the first plus is "ctrl" (Alt otherwise), and the key named by the lowercase
/// second part (space when there is none).
pub open spec fn shortcut_spec(s: Seq<char>) -> Shortcut {
    let parts = split_seq(s, '+');
    Shortcut {
        use_ctrl: parts[0] == "ctrl"@,
        key: if parts.len() > 1 {
            key_named(lowercase_of(parts[1]))
        } else {
            Key::Space
        },
    }
}

/// Reads a shortcut text.
pub fn parse_shortcut(s: &str) -> (r: Shortcut)
    ensures
        r == shortcut_spec(s@),
{
    let v = chars_of(s);
    let parts = split_chars(&v, 0, v.len(), '+');
    assert(v@.subrange(0, v@.len() as int) =~= v@);
    let ctrl = chars_of("ctrl");
    let use_ctrl = same_chars(&parts[0], &ctrl);
    let key = if parts.len() > 1 {
        let name = string_of(&parts[1]);
        let lower = to_lowercase(name.as_str());
        let lv = chars_of(lower.as_str());
        let l = chars_of("l");
        let p = chars_of("p");
        if same_chars(&lv, &l) {
            Key::KeyL
        } else if same_chars(&lv, &p) {
            Key::KeyP
        } else {
            Key::Space
        }
    } else {
        Key::Space
    };
    Shortcut { use_ctrl, key }
}

// ---------------------------------------------------------------------------
// Listening to the keyboard
// ---------------------------------------------------------------------------

/// A key going down or up.
#[derive(PartialEq, Eq, Structural, Clone, Copy)]
pub enum KeyEvent {
    Press(Key),
    Release(Key),
}

/// Which modifiers are held down.
#[derive(PartialEq, Eq, Structural, Clone, Copy)]
pub struct ListenerState {
    pub ctrl_down: bool,
    pub alt_down: bool,
}

/// Nothing is held down.
pub fn initial_listener_state() -> (r: ListenerState)
    ensures
        !r.ctrl_down && !r.alt_down,
{
    ListenerState { ctrl_down: false, alt_down: false }
}

/// Either Control key.
pub open spec fn is_control(k: Key) -> bool {
    k == Key::ControlLeft || k == Key::ControlRight
}

/// The modifiers after `e`, and whether `e` shows or hides the launcher: Alt and Control
/// going down or up set their flags; the shortcut's key going down toggles the launcher
/// when the shortcut's modifier is held.
pub open spec fn listener_step(s: ListenerState, sc: Shortcut, e: KeyEvent) -> (ListenerState, bool) {
    match e {
        KeyEvent::Press(k) => if k == Key::Alt {
            (ListenerState { ctrl_down: s.ctrl_down, alt_down: true }, false)
        } else if is_control(k) {
            (ListenerState { ctrl_down: true, alt_down: s.alt_down }, false)
        } else if k == sc.key {
            (
                s,
                if sc.use_ctrl {
                    s.ctrl_down
                } else {
                    s.alt_down
                },
            )
        } else {
            (s, false)
        },
        KeyEvent::Release(k) => if k == Key::Alt {
            (ListenerState { ctrl_down: s.ctrl_down, alt_down: false }, false)
        } else if is_control(k) {
            (ListenerState { ctrl_down: false, alt_down: s.alt_down }, false)
        } else {
            (s, false)
        },
    }
}

/// Handles a keyboard event: updates the modifiers and tells whether to show or hide the
/// launcher.
pub fn on_key_event(state: &mut ListenerState, shortcut: Shortcut, event: KeyEvent) -> (r: bool)
    ensures
        (*final(state), r) == listener_step(*old(state), shortcut, event),
{
    match event {
        KeyEvent::Press(k) => {
            if k == Key::Alt {
                state.alt_down = true;
                false
            } else if k == Key::ControlLeft || k == Key::ControlRight {
                state.ctrl_down = true;
                false
            } else if k == shortcut.key {
                if shortcut.use_ctrl {
                    state.ctrl_down
                } else {
                    state.alt_down
                }
            } else {
                false
            }
        },
        KeyEvent::Release(k) => {
            if k == Key::Alt {
                state.alt_down = false;
            } else if k == Key::ControlLeft || k == Key::ControlRight {
                state.ctrl_down = false;
            }
            false
        },
    }
}

/// The shortcut works: from any state, pressing its modifier and then its key shows or
/// hides the launcher.
pub proof fn lemma_shortcut_toggles(s: ListenerState, sc: Shortcut)
    requires
        sc.key == Key::Space || sc.key == Key::KeyL || sc.key == Key::KeyP,
    ensures
        ({
            let modifier = if sc.use_ctrl {
                Key::ControlLeft
            } else {
                Key::Alt
            };
            let (s1, t1) = listener_step(s, sc, KeyEvent::Press(modifier));
            let (s2, t2) = listener_step(s1, sc, KeyEvent::Press(sc.key));
            !t1 && t2
        }),
{
}

/// Only the shortcut toggles: an event toggles the launcher only when it is the
/// shortcut's key going down with the shortcut's modifier held.
pub proof fn lemma_only_shortcut_toggles(s: ListenerState, sc: Shortcut, e: KeyEvent)
    requires
        sc.key == Key::Space || sc.key == Key::KeyL || sc.key == Key::KeyP,
    ensures
        listener_step(s, sc, e).1 ==> e == KeyEvent::Press(sc.key) && (if sc.use_ctrl {
            s.ctrl_down
        } else {
            s.alt_down
        }),
{
}

/// Releasing a modifier: after Control or Alt goes up, it no longer counts as held.
pub proof fn lemma_release_clears(s: ListenerState, sc: Shortcut, k: Key)
    ensures
        is_control(k) ==> !listener_step(s, sc, KeyEvent::Release(k)).0.ctrl_down,
        k == Key::Alt ==> !listener_step(s, sc, KeyEvent::Release(k)).0.alt_down,
{
}

// ---------------------------------------------------------------------------
// The window and the tray
// ---------------------------------------------------------------------------

/// What to do with the launcher's window.
#[derive(PartialEq, Eq, Structural, Clone, Copy)]
pub enum WindowAction {
    Hide,
    /// Show it, centre it when `center`, and give it the focus.
    Show { center: bool },
}

/// Toggling the window: hide a visible window, show a hidden one.
pub open spec fn toggle_spec(visible: bool, center_on_show: bool) -> WindowAction {
    if visible {
        WindowAction::Hide
    } else {
        WindowAction::Show { center: center_on_show }
    }
}

/// What toggling does to a window that is `visible` (false when that cannot be told).
pub fn toggle_window(visible: bool, center_on_show: bool) -> (r: WindowAction)
    ensures
        r == toggle_spec(visible, center_on_show),
{
    if visible {
        WindowAction::Hide
    } else {
        WindowAction::Show { center: center_on_show }
    }
}

/// Whether the window is visible after an action.
pub open spec fn visible_after(a: WindowAction) -> bool {
    a != WindowAction::Hide
}

/// Toggling twice puts the window back as it was.
pub proof fn lemma_toggle_twice(visible: bool, center: bool)
    ensures
        visible_after(toggle_spec(visible_after(toggle_spec(visible, center)), center)) == visible,
{
}

/// What a choice in the tray menu does.
#[derive(PartialEq, Eq, Structural, Clone, Copy)]
pub enum TrayAction {
    /// Show or hide the window.
    Toggle,
    /// Leave the application.
    Quit,
    /// Nothing.
    Ignore,
}

/// The tray menu's entries: "toggle" shows or hides, "quit" leaves.
pub open spec fn tray_menu_spec(id: Seq<char>) -> TrayAction {
    if id == "toggle"@ {
        TrayAction::Toggle
    } else if id == "quit"@ {
        TrayAction::Quit
    } else {
        TrayAction::Ignore
    }
}

/// What choosing the tray menu entry `id` does.
pub fn tray_menu_action(id: &str) -> (r: TrayAction)
    ensures
        r == tray_menu_spec(id@),
{
    if crate::text::same_text(id, "toggle") {
        TrayAction::Toggle
    } else if crate::text::same_text(id, "quit") {
        TrayAction::Quit
    } else {
        TrayAction::Ignore
    }
}

/// A click on the tray icon toggles the window when it is the left button coming up.
pub fn tray_click_toggles(left_button: bool, released: bool) -> (r: bool)
    ensures
        r == (left_button && released),
{
    left_button && released
}

} // verus!
