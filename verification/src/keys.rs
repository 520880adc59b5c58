//! Key and mouse events as the pager reads them, and the pager's key bindings.

use vstd::prelude::*;

verus! {

/// The key of a key event.
#[derive(Clone, Copy, Debug, PartialEq, Eq, Structural)]
pub enum KeyCode {
    Char(char),
    Up,
    Down,
    Left,
    Right,
    PageUp,
    PageDown,
    Home,
    End,
    Enter,
    Esc,
    Tab,
    Backspace,
    /// Any key the pager never binds.
    Other,
}

/// Modifier bits: shift 1, control 2, alt 4 (the terminal's own encoding).
#[derive(Clone, Copy, Debug, PartialEq, Eq, Structural)]
pub struct KeyModifiers {
    pub bits: u8,
}

pub const MODIFIER_NONE: u8 = 0;

pub const MODIFIER_SHIFT: u8 = 1;

pub const MODIFIER_CONTROL: u8 = 2;

pub const MODIFIER_ALT: u8 = 4;

impl KeyModifiers {
    pub fn none() -> (r: Self)
        ensures
            r.bits == MODIFIER_NONE,
    {
        KeyModifiers { bits: MODIFIER_NONE }
    }

    pub fn shift() -> (r: Self)
        ensures
            r.bits == MODIFIER_SHIFT,
    {
        KeyModifiers { bits: MODIFIER_SHIFT }
    }

    pub fn control() -> (r: Self)
        ensures
            r.bits == MODIFIER_CONTROL,
    {
        KeyModifiers { bits: MODIFIER_CONTROL }
    }

    pub fn alt() -> (r: Self)
        ensures
            r.bits == MODIFIER_ALT,
    {
        KeyModifiers { bits: MODIFIER_ALT }
    }
}

/// A key press.
#[derive(Clone, Copy, Debug, PartialEq, Eq, Structural)]
pub struct KeyEvent {
    pub code: KeyCode,
    pub modifiers: KeyModifiers,
}

impl KeyEvent {
    pub fn new(code: KeyCode, modifiers: KeyModifiers) -> (r: Self)
        ensures
            r.code == code,
            r.modifiers == modifiers,
    {
        KeyEvent { code, modifiers }
    }

    /// A key press without modifiers.
    pub fn plain(code: KeyCode) -> (r: Self)
        ensures
            r.code == code,
            r.modifiers.bits == MODIFIER_NONE,
    {
        KeyEvent { code, modifiers: KeyModifiers::none() }
    }
}

/// The mouse events the workspace reacts to.
#[derive(Clone, Copy, Debug, PartialEq, Eq, Structural)]
pub enum MouseEventKind {
    ScrollUp,
    ScrollDown,
    /// Presses, drags, moves and horizontal scrolling.
    Other,
}

/// One key combination bound to a pager action.
pub type KeyBinding = KeyEvent;

/// A binding matches an event with the same key and the same modifiers.
pub open spec fn is_pressed_spec(bindings: Seq<KeyBinding>, event: KeyEvent) -> bool {
    bindings.contains(event)
}

/// Whether one of `bindings` is `event`.
pub fn is_pressed(bindings: &Vec<KeyBinding>, event: KeyEvent) -> (r: bool)
    ensures
        r == is_pressed_spec(bindings@, event),
{
    let n = bindings.len();
    let mut i: usize = 0;
    while i < n
        invariant
            0 <= i <= n,
            n == bindings.len(),
            forall|k: int| 0 <= k < i ==> bindings@[k] != event,
        decreases n - i,
    {
        if bindings[i] == event {
            assert(bindings@[i as int] == event);
            return true;
        }
        i += 1;
    }
    false
}

/// The key press of `code` with the modifier bits `bits`.
pub open spec fn key_spec(code: KeyCode, bits: u8) -> KeyEvent {
    KeyEvent { code, modifiers: KeyModifiers { bits } }
}

/// The key bindings of the pager's navigation and close actions.
#[derive(Clone, Debug)]
pub struct PagerKeymap {
    pub scroll_up: Vec<KeyBinding>,
    pub scroll_down: Vec<KeyBinding>,
    pub page_up: Vec<KeyBinding>,
    pub page_down: Vec<KeyBinding>,
    pub half_page_up: Vec<KeyBinding>,
    pub half_page_down: Vec<KeyBinding>,
    pub jump_top: Vec<KeyBinding>,
    pub jump_bottom: Vec<KeyBinding>,
    pub close: Vec<KeyBinding>,
    pub close_transcript: Vec<KeyBinding>,
}

impl PagerKeymap {
    /// The default pager bindings: arrows and `k`/`j` scroll, PageUp/PageDown (also Shift+Space
    /// and Ctrl+B, Space and Ctrl+F) page, Ctrl+U/Ctrl+D move half a page, Home/End jump, `q` and
    /// Ctrl+C close, Ctrl+T closes the transcript.
    pub fn defaults() -> (r: Self)
        ensures
            r.scroll_up@ == seq![key_spec(KeyCode::Up, MODIFIER_NONE), key_spec(KeyCode::Char('k'), MODIFIER_NONE)],
            r.scroll_down@ == seq![key_spec(KeyCode::Down, MODIFIER_NONE), key_spec(KeyCode::Char('j'), MODIFIER_NONE)],
            r.page_up@ == seq![
                key_spec(KeyCode::PageUp, MODIFIER_NONE),
                key_spec(KeyCode::Char(' '), MODIFIER_SHIFT),
                key_spec(KeyCode::Char('b'), MODIFIER_CONTROL),
            ],
            r.page_down@ == seq![
                key_spec(KeyCode::PageDown, MODIFIER_NONE),
                key_spec(KeyCode::Char(' '), MODIFIER_NONE),
                key_spec(KeyCode::Char('f'), MODIFIER_CONTROL),
            ],
            r.half_page_up@ == seq![key_spec(KeyCode::Char('u'), MODIFIER_CONTROL)],
            r.half_page_down@ == seq![key_spec(KeyCode::Char('d'), MODIFIER_CONTROL)],
            r.jump_top@ == seq![key_spec(KeyCode::Home, MODIFIER_NONE)],
            r.jump_bottom@ == seq![key_spec(KeyCode::End, MODIFIER_NONE)],
            r.close@ == seq![key_spec(KeyCode::Char('q'), MODIFIER_NONE), key_spec(KeyCode::Char('c'), MODIFIER_CONTROL)],
            r.close_transcript@ == seq![key_spec(KeyCode::Char('t'), MODIFIER_CONTROL)],
    {
        let none = KeyModifiers::none();
        let control = KeyModifiers::control();
        let shift = KeyModifiers::shift();
        let r = PagerKeymap {
            scroll_up: vec![KeyEvent::new(KeyCode::Up, none), KeyEvent::new(KeyCode::Char('k'), none)],
            scroll_down: vec![KeyEvent::new(KeyCode::Down, none), KeyEvent::new(KeyCode::Char('j'), none)],
            page_up: vec![
                KeyEvent::new(KeyCode::PageUp, none),
                KeyEvent::new(KeyCode::Char(' '), shift),
                KeyEvent::new(KeyCode::Char('b'), control),
            ],
            page_down: vec![
                KeyEvent::new(KeyCode::PageDown, none),
                KeyEvent::new(KeyCode::Char(' '), none),
                KeyEvent::new(KeyCode::Char('f'), control),
            ],
            half_page_up: vec![KeyEvent::new(KeyCode::Char('u'), control)],
            half_page_down: vec![KeyEvent::new(KeyCode::Char('d'), control)],
            jump_top: vec![KeyEvent::new(KeyCode::Home, none)],
            jump_bottom: vec![KeyEvent::new(KeyCode::End, none)],
            close: vec![KeyEvent::new(KeyCode::Char('q'), none), KeyEvent::new(KeyCode::Char('c'), control)],
            close_transcript: vec![KeyEvent::new(KeyCode::Char('t'), control)],
        };
        assert(r.scroll_up@ =~= seq![key_spec(KeyCode::Up, MODIFIER_NONE), key_spec(KeyCode::Char('k'), MODIFIER_NONE)]);
        assert(r.scroll_down@ =~= seq![key_spec(KeyCode::Down, MODIFIER_NONE), key_spec(KeyCode::Char('j'), MODIFIER_NONE)]);
        assert(r.page_up@ =~= seq![
            key_spec(KeyCode::PageUp, MODIFIER_NONE),
            key_spec(KeyCode::Char(' '), MODIFIER_SHIFT),
            key_spec(KeyCode::Char('b'), MODIFIER_CONTROL),
        ]);
        assert(r.page_down@ =~= seq![
            key_spec(KeyCode::PageDown, MODIFIER_NONE),
            key_spec(KeyCode::Char(' '), MODIFIER_NONE),
            key_spec(KeyCode::Char('f'), MODIFIER_CONTROL),
        ]);
        assert(r.half_page_up@ =~= seq![key_spec(KeyCode::Char('u'), MODIFIER_CONTROL)]);
        assert(r.half_page_down@ =~= seq![key_spec(KeyCode::Char('d'), MODIFIER_CONTROL)]);
        assert(r.jump_top@ =~= seq![key_spec(KeyCode::Home, MODIFIER_NONE)]);
        assert(r.jump_bottom@ =~= seq![key_spec(KeyCode::End, MODIFIER_NONE)]);
        assert(r.close@ =~= seq![key_spec(KeyCode::Char('q'), MODIFIER_NONE), key_spec(KeyCode::Char('c'), MODIFIER_CONTROL)]);
        assert(r.close_transcript@ =~= seq![key_spec(KeyCode::Char('t'), MODIFIER_CONTROL)]);
        r
    }

    /// The binding shown for an action in the footer: its first binding.
    pub fn primary_hint(&self, bindings: &Vec<KeyBinding>) -> (r: Option<KeyBinding>)
        ensures
            r == (if bindings@.len() == 0 {
                None
            } else {
                Some(bindings@[0])
            }),
    {
        if bindings.len() == 0 {
            None
        } else {
            Some(bindings[0])
        }
    }
}

/// The footer hint of an action: its primary binding, or nothing.
pub fn first_or_empty(keymap: &PagerKeymap, bindings: &Vec<KeyBinding>) -> (r: Vec<KeyBinding>)
    ensures
        r@ == (if bindings@.len() == 0 {
            Seq::<KeyBinding>::empty()
        } else {
            seq![bindings@[0]]
        }),
{
    let mut r: Vec<KeyBinding> = Vec::new();
    match keymap.primary_hint(bindings) {
        Some(hint) => r.push(hint),
        None => {},
    }
    r
}

} // verus!
