//! Keyboard and pointer-button input for dialogs: the dialog key that a pressed key stands for,
//! the dialog button for a pointer button, and the modifier state that key presses and releases
//! keep.

use vstd::prelude::*;

verus! {

/// A key reported by the window.
#[derive(Clone, Copy, Debug, PartialEq, Eq, Structural)]
pub enum DrawKey {
    Unknown,
    ModifierShift,
    ModifierCtrl,
    ModifierAlt,
    ModifierMeta,
    ModifierSuper,
    ModifierHyper,
    KeyTab,
    KeyA,
    KeyB,
    KeyC,
    KeyD,
    KeyE,
    KeyF,
    KeyG,
    KeyH,
    KeyI,
    KeyJ,
    KeyK,
    KeyL,
    KeyM,
    KeyN,
    KeyO,
    KeyP,
    KeyQ,
    KeyR,
    KeyS,
    KeyT,
    KeyU,
    KeyV,
    KeyW,
    KeyX,
    KeyY,
    KeyZ,
    Key1,
    Key2,
    Key3,
    Key4,
    Key5,
    Key6,
    Key7,
    Key8,
    Key9,
    Key0,
    KeyUp,
    KeyDown,
    KeyLeft,
    KeyRight,
    KeyBackslash,
    KeyForwardslash,
    KeyBacktick,
    KeyComma,
    KeyFullstop,
    KeySemicolon,
    KeyQuote,
    KeyMinus,
    KeyEquals,
    KeySpace,
    KeyEscape,
    KeyInsert,
    KeyHome,
    KeyPgUp,
    KeyDelete,
    KeyEnd,
    KeyPgDown,
    KeyBackspace,
    KeyEnter,
    KeyF1,
    KeyF2,
    KeyF3,
    KeyF4,
    KeyF5,
    KeyF6,
    KeyF7,
    KeyF8,
    KeyF9,
    KeyF10,
    KeyF11,
    KeyF12,
    KeyF13,
    KeyF14,
    KeyF15,
    KeyF16,
    KeyNumpad0,
    KeyNumpad1,
    KeyNumpad2,
    KeyNumpad3,
    KeyNumpad4,
    KeyNumpad5,
    KeyNumpad6,
    KeyNumpad7,
    KeyNumpad8,
    KeyNumpad9,
    KeyNumpadDivide,
    KeyNumpadMultiply,
    KeyNumpadMinus,
    KeyNumpadAdd,
    KeyNumpadEnter,
    KeyNumpadDecimal,
}

/// A key that dialogs understand.
#[derive(Clone, Copy, Debug, PartialEq, Eq, Structural)]
pub enum DialogKey {
    Tab,
    A,
    B,
    C,
    D,
    E,
    F,
    G,
    H,
    I,
    J,
    K,
    L,
    M,
    N,
    O,
    P,
    Q,
    R,
    S,
    T,
    U,
    V,
    W,
    X,
    Y,
    Z,
    Num1,
    Num2,
    Num3,
    Num4,
    Num5,
    Num6,
    Num7,
    Num8,
    Num9,
    Num0,
    ArrowUp,
    ArrowDown,
    ArrowLeft,
    ArrowRight,
    Backslash,
    Slash,
    Backtick,
    Comma,
    Period,
    Semicolon,
    Quote,
    Minus,
    Equals,
    Space,
    Escape,
    Insert,
    Home,
    PageUp,
    Delete,
    End,
    PageDown,
    Backspace,
    Enter,
    F1,
    F2,
    F3,
    F4,
    F5,
    F6,
    F7,
    F8,
    F9,
    F10,
    F11,
    F12,
    F13,
    F14,
    F15,
    F16,
    Plus,
}

/// A pointer button reported by the window.
#[derive(Clone, Copy, Debug, PartialEq, Eq, Structural)]
pub enum DrawButton {
    Left,
    Middle,
    Right,
    Other(u64),
}

/// A pointer button that dialogs understand.
#[derive(Clone, Copy, Debug, PartialEq, Eq, Structural)]
pub enum DialogButton {
    Primary,
    Secondary,
    Middle,
    Extra1,
    Extra2,
}

/// The modifier keys held down.
#[derive(Clone, Copy, Debug, PartialEq, Eq, Structural)]
pub struct Modifiers {
    pub shift: bool,
    pub alt: bool,
    pub ctrl: bool,
    pub mac_cmd: bool,
    pub command: bool,
}

/// A key press or release for a dialog, with the modifiers held at the time.
#[derive(Clone, Copy, Debug, PartialEq, Eq, Structural)]
pub struct KeyInput {
    pub key: DialogKey,
    pub pressed: bool,
    pub modifiers: Modifiers,
}

/// The dialog key that a window key stands for: letters, digits (the numeric keypad's too),
/// arrows, punctuation, editing keys and function keys; modifiers, the keypad's `*` and unknown
/// keys stand for none.
pub open spec fn key_for(k: DrawKey) -> Option<DialogKey> {
    match k {
        DrawKey::Unknown => None,
        DrawKey::ModifierShift => None,
        DrawKey::ModifierCtrl => None,
        DrawKey::ModifierAlt => None,
        DrawKey::ModifierMeta => None,
        DrawKey::ModifierSuper => None,
        DrawKey::ModifierHyper => None,
        DrawKey::KeyTab => Some(DialogKey::Tab),
        DrawKey::KeyA => Some(DialogKey::A),
        DrawKey::KeyB => Some(DialogKey::B),
        DrawKey::KeyC => Some(DialogKey::C),
        DrawKey::KeyD => Some(DialogKey::D),
        DrawKey::KeyE => Some(DialogKey::E),
        DrawKey::KeyF => Some(DialogKey::F),
        DrawKey::KeyG => Some(DialogKey::G),
        DrawKey::KeyH => Some(DialogKey::H),
        DrawKey::KeyI => Some(DialogKey::I),
        DrawKey::KeyJ => Some(DialogKey::J),
        DrawKey::KeyK => Some(DialogKey::K),
        DrawKey::KeyL => Some(DialogKey::L),
        DrawKey::KeyM => Some(DialogKey::M),
        DrawKey::KeyN => Some(DialogKey::N),
        DrawKey::KeyO => Some(DialogKey::O),
        DrawKey::KeyP => Some(DialogKey::P),
        DrawKey::KeyQ => Some(DialogKey::Q),
        DrawKey::KeyR => Some(DialogKey::R),
        DrawKey::KeyS => Some(DialogKey::S),
        DrawKey::KeyT => Some(DialogKey::T),
        DrawKey::KeyU => Some(DialogKey::U),
        DrawKey::KeyV => Some(DialogKey::V),
        DrawKey::KeyW => Some(DialogKey::W),
        DrawKey::KeyX => Some(DialogKey::X),
        DrawKey::KeyY => Some(DialogKey::Y),
        DrawKey::KeyZ => Some(DialogKey::Z),
        DrawKey::Key1 => Some(DialogKey::Num1),
        DrawKey::Key2 => Some(DialogKey::Num2),
        DrawKey::Key3 => Some(DialogKey::Num3),
        DrawKey::Key4 => Some(DialogKey::Num4),
        DrawKey::Key5 => Some(DialogKey::Num5),
        DrawKey::Key6 => Some(DialogKey::Num6),
        DrawKey::Key7 => Some(DialogKey::Num7),
        DrawKey::Key8 => Some(DialogKey::Num8),
        DrawKey::Key9 => Some(DialogKey::Num9),
        DrawKey::Key0 => Some(DialogKey::Num0),
        DrawKey::KeyUp => Some(DialogKey::ArrowUp),
        DrawKey::KeyDown => Some(DialogKey::ArrowDown),
        DrawKey::KeyLeft => Some(DialogKey::ArrowLeft),
        DrawKey::KeyRight => Some(DialogKey::ArrowRight),
        DrawKey::KeyBackslash => Some(DialogKey::Backslash),
        DrawKey::KeyForwardslash => Some(DialogKey::Slash),
        DrawKey::KeyBacktick => Some(DialogKey::Backtick),
        DrawKey::KeyComma => Some(DialogKey::Comma),
        DrawKey::KeyFullstop => Some(DialogKey::Period),
        DrawKey::KeySemicolon => Some(DialogKey::Semicolon),
        DrawKey::KeyQuote => Some(DialogKey::Quote),
        DrawKey::KeyMinus => Some(DialogKey::Minus),
        DrawKey::KeyEquals => Some(DialogKey::Equals),
        DrawKey::KeySpace => Some(DialogKey::Space),
        DrawKey::KeyEscape => Some(DialogKey::Escape),
        DrawKey::KeyInsert => Some(DialogKey::Insert),
        DrawKey::KeyHome => Some(DialogKey::Home),
        DrawKey::KeyPgUp => Some(DialogKey::PageUp),
        DrawKey::KeyDelete => Some(DialogKey::Delete),
        DrawKey::KeyEnd => Some(DialogKey::End),
        DrawKey::KeyPgDown => Some(DialogKey::PageDown),
        DrawKey::KeyBackspace => Some(DialogKey::Backspace),
        DrawKey::KeyEnter => Some(DialogKey::Enter),
        DrawKey::KeyF1 => Some(DialogKey::F1),
        DrawKey::KeyF2 => Some(DialogKey::F2),
        DrawKey::KeyF3 => Some(DialogKey::F3),
        DrawKey::KeyF4 => Some(DialogKey::F4),
        DrawKey::KeyF5 => Some(DialogKey::F5),
        DrawKey::KeyF6 => Some(DialogKey::F6),
        DrawKey::KeyF7 => Some(DialogKey::F7),
        DrawKey::KeyF8 => Some(DialogKey::F8),
        DrawKey::KeyF9 => Some(DialogKey::F9),
        DrawKey::KeyF10 => Some(DialogKey::F10),
        DrawKey::KeyF11 => Some(DialogKey::F11),
        DrawKey::KeyF12 => Some(DialogKey::F12),
        DrawKey::KeyF13 => Some(DialogKey::F13),
        DrawKey::KeyF14 => Some(DialogKey::F14),
        DrawKey::KeyF15 => Some(DialogKey::F15),
        DrawKey::KeyF16 => Some(DialogKey::F16),
        DrawKey::KeyNumpad0 => Some(DialogKey::Num0),
        DrawKey::KeyNumpad1 => Some(DialogKey::Num1),
        DrawKey::KeyNumpad2 => Some(DialogKey::Num2),
        DrawKey::KeyNumpad3 => Some(DialogKey::Num3),
        DrawKey::KeyNumpad4 => Some(DialogKey::Num4),
        DrawKey::KeyNumpad5 => Some(DialogKey::Num5),
        DrawKey::KeyNumpad6 => Some(DialogKey::Num6),
        DrawKey::KeyNumpad7 => Some(DialogKey::Num7),
        DrawKey::KeyNumpad8 => Some(DialogKey::Num8),
        DrawKey::KeyNumpad9 => Some(DialogKey::Num9),
        DrawKey::KeyNumpadDivide => Some(DialogKey::Slash),
        DrawKey::KeyNumpadMultiply => None,
        DrawKey::KeyNumpadMinus => Some(DialogKey::Minus),
        DrawKey::KeyNumpadAdd => Some(DialogKey::Plus),
        DrawKey::KeyNumpadEnter => Some(DialogKey::Enter),
        DrawKey::KeyNumpadDecimal => Some(DialogKey::Period),
    }
}

/// The dialog key for a window key, if there is one.
pub fn convert_key(k: DrawKey) -> (r: Option<DialogKey>)
    ensures
        r == key_for(k),
{
    match k {
        DrawKey::Unknown => None,
        DrawKey::ModifierShift => None,
        DrawKey::ModifierCtrl => None,
        DrawKey::ModifierAlt => None,
        DrawKey::ModifierMeta => None,
        DrawKey::ModifierSuper => None,
        DrawKey::ModifierHyper => None,
        DrawKey::KeyTab => Some(DialogKey::Tab),
        DrawKey::KeyA => Some(DialogKey::A),
        DrawKey::KeyB => Some(DialogKey::B),
        DrawKey::KeyC => Some(DialogKey::C),
        DrawKey::KeyD => Some(DialogKey::D),
        DrawKey::KeyE => Some(DialogKey::E),
        DrawKey::KeyF => Some(DialogKey::F),
        DrawKey::KeyG => Some(DialogKey::G),
        DrawKey::KeyH => Some(DialogKey::H),
        DrawKey::KeyI => Some(DialogKey::I),
        DrawKey::KeyJ => Some(DialogKey::J),
        DrawKey::KeyK => Some(DialogKey::K),
        DrawKey::KeyL => Some(DialogKey::L),
        DrawKey::KeyM => Some(DialogKey::M),
        DrawKey::KeyN => Some(DialogKey::N),
        DrawKey::KeyO => Some(DialogKey::O),
        DrawKey::KeyP => Some(DialogKey::P),
        DrawKey::KeyQ => Some(DialogKey::Q),
        DrawKey::KeyR => Some(DialogKey::R),
        DrawKey::KeyS => Some(DialogKey::S),
        DrawKey::KeyT => Some(DialogKey::T),
        DrawKey::KeyU => Some(DialogKey::U),
        DrawKey::KeyV => Some(DialogKey::V),
        DrawKey::KeyW => Some(DialogKey::W),
        DrawKey::KeyX => Some(DialogKey::X),
        DrawKey::KeyY => Some(DialogKey::Y),
        DrawKey::KeyZ => Some(DialogKey::Z),
        DrawKey::Key1 => Some(DialogKey::Num1),
        DrawKey::Key2 => Some(DialogKey::Num2),
        DrawKey::Key3 => Some(DialogKey::Num3),
        DrawKey::Key4 => Some(DialogKey::Num4),
        DrawKey::Key5 => Some(DialogKey::Num5),
        DrawKey::Key6 => Some(DialogKey::Num6),
        DrawKey::Key7 => Some(DialogKey::Num7),
        DrawKey::Key8 => Some(DialogKey::Num8),
        DrawKey::Key9 => Some(DialogKey::Num9),
        DrawKey::Key0 => Some(DialogKey::Num0),
        DrawKey::KeyUp => Some(DialogKey::ArrowUp),
        DrawKey::KeyDown => Some(DialogKey::ArrowDown),
        DrawKey::KeyLeft => Some(DialogKey::ArrowLeft),
        DrawKey::KeyRight => Some(DialogKey::ArrowRight),
        DrawKey::KeyBackslash => Some(DialogKey::Backslash),
        DrawKey::KeyForwardslash => Some(DialogKey::Slash),
        DrawKey::KeyBacktick => Some(DialogKey::Backtick),
        DrawKey::KeyComma => Some(DialogKey::Comma),
        DrawKey::KeyFullstop => Some(DialogKey::Period),
        DrawKey::KeySemicolon => Some(DialogKey::Semicolon),
        DrawKey::KeyQuote => Some(DialogKey::Quote),
        DrawKey::KeyMinus => Some(DialogKey::Minus),
        DrawKey::KeyEquals => Some(DialogKey::Equals),
        DrawKey::KeySpace => Some(DialogKey::Space),
        DrawKey::KeyEscape => Some(DialogKey::Escape),
        DrawKey::KeyInsert => Some(DialogKey::Insert),
        DrawKey::KeyHome => Some(DialogKey::Home),
        DrawKey::KeyPgUp => Some(DialogKey::PageUp),
        DrawKey::KeyDelete => Some(DialogKey::Delete),
        DrawKey::KeyEnd => Some(DialogKey::End),
        DrawKey::KeyPgDown => Some(DialogKey::PageDown),
        DrawKey::KeyBackspace => Some(DialogKey::Backspace),
        DrawKey::KeyEnter => Some(DialogKey::Enter),
        DrawKey::KeyF1 => Some(DialogKey::F1),
        DrawKey::KeyF2 => Some(DialogKey::F2),
        DrawKey::KeyF3 => Some(DialogKey::F3),
        DrawKey::KeyF4 => Some(DialogKey::F4),
        DrawKey::KeyF5 => Some(DialogKey::F5),
        DrawKey::KeyF6 => Some(DialogKey::F6),
        DrawKey::KeyF7 => Some(DialogKey::F7),
        DrawKey::KeyF8 => Some(DialogKey::F8),
        DrawKey::KeyF9 => Some(DialogKey::F9),
        DrawKey::KeyF10 => Some(DialogKey::F10),
        DrawKey::KeyF11 => Some(DialogKey::F11),
        DrawKey::KeyF12 => Some(DialogKey::F12),
        DrawKey::KeyF13 => Some(DialogKey::F13),
        DrawKey::KeyF14 => Some(DialogKey::F14),
        DrawKey::KeyF15 => Some(DialogKey::F15),
        DrawKey::KeyF16 => Some(DialogKey::F16),
        DrawKey::KeyNumpad0 => Some(DialogKey::Num0),
        DrawKey::KeyNumpad1 => Some(DialogKey::Num1),
        DrawKey::KeyNumpad2 => Some(DialogKey::Num2),
        DrawKey::KeyNumpad3 => Some(DialogKey::Num3),
        DrawKey::KeyNumpad4 => Some(DialogKey::Num4),
        DrawKey::KeyNumpad5 => Some(DialogKey::Num5),
        DrawKey::KeyNumpad6 => Some(DialogKey::Num6),
        DrawKey::KeyNumpad7 => Some(DialogKey::Num7),
        DrawKey::KeyNumpad8 => Some(DialogKey::Num8),
        DrawKey::KeyNumpad9 => Some(DialogKey::Num9),
        DrawKey::KeyNumpadDivide => Some(DialogKey::Slash),
        DrawKey::KeyNumpadMultiply => None,
        DrawKey::KeyNumpadMinus => Some(DialogKey::Minus),
        DrawKey::KeyNumpadAdd => Some(DialogKey::Plus),
        DrawKey::KeyNumpadEnter => Some(DialogKey::Enter),
        DrawKey::KeyNumpadDecimal => Some(DialogKey::Period),
    }
}

/// The dialog button for a window button: left is primary, right secondary; other buttons are
/// the first extra button (number 0) or the second (any other number).
pub open spec fn button_for(b: DrawButton) -> DialogButton {
    match b {
        DrawButton::Left => DialogButton::Primary,
        DrawButton::Right => DialogButton::Secondary,
        DrawButton::Middle => DialogButton::Middle,
        DrawButton::Other(n) => if n == 0 { DialogButton::Extra1 } else { DialogButton::Extra2 },
    }
}

/// The dialog button for a window button.
pub fn convert_button(b: DrawButton) -> (r: DialogButton)
    ensures
        r == button_for(b),
{
    match b {
        DrawButton::Left => DialogButton::Primary,
        DrawButton::Right => DialogButton::Secondary,
        DrawButton::Middle => DialogButton::Middle,
        DrawButton::Other(n) => if n == 0 { DialogButton::Extra1 } else { DialogButton::Extra2 },
    }
}

/// A key going down (`pressed`) or up, with the modifiers held before it: shift and alt set their
/// own flag; on macOS the meta key sets both the mac command and command flags and control sets
/// the control flag, elsewhere meta sets the mac command flag and control sets both the control
/// and command flags. Any other key leaves the modifiers alone and, when it stands for a dialog
/// key, is passed on with the modifiers held.
pub open spec fn spec_key_event(mods: Modifiers, pressed: bool, key: Option<DrawKey>, macos: bool) -> (Modifiers, Option<KeyInput>) {
    match key {
        Some(DrawKey::ModifierShift) => (Modifiers { shift: pressed, ..mods }, None),
        Some(DrawKey::ModifierAlt) => (Modifiers { alt: pressed, ..mods }, None),
        Some(DrawKey::ModifierMeta) => if macos {
            (Modifiers { mac_cmd: pressed, command: pressed, ..mods }, None)
        } else {
            (Modifiers { mac_cmd: pressed, ..mods }, None)
        },
        Some(DrawKey::ModifierCtrl) => if macos {
            (Modifiers { ctrl: pressed, ..mods }, None)
        } else {
            (Modifiers { ctrl: pressed, command: pressed, ..mods }, None)
        },
        Some(k) => match key_for(k) {
            Some(d) => (mods, Some(KeyInput { key: d, pressed, modifiers: mods })),
            None => (mods, None),
        },
        None => (mods, None),
    }
}

/// Handles a key going down or up: the new modifiers, and the key input to pass on, if any.
pub fn key_event(mods: Modifiers, pressed: bool, key: Option<DrawKey>, macos: bool) -> (r: (Modifiers, Option<KeyInput>))
    ensures
        r == spec_key_event(mods, pressed, key, macos),
{
    match key {
        Some(DrawKey::ModifierShift) => (Modifiers { shift: pressed, ..mods }, None),
        Some(DrawKey::ModifierAlt) => (Modifiers { alt: pressed, ..mods }, None),
        Some(DrawKey::ModifierMeta) => if macos {
            (Modifiers { mac_cmd: pressed, command: pressed, ..mods }, None)
        } else {
            (Modifiers { mac_cmd: pressed, ..mods }, None)
        },
        Some(DrawKey::ModifierCtrl) => if macos {
            (Modifiers { ctrl: pressed, ..mods }, None)
        } else {
            (Modifiers { ctrl: pressed, command: pressed, ..mods }, None)
        },
        Some(k) => match convert_key(k) {
            Some(d) => (mods, Some(KeyInput { key: d, pressed, modifiers: mods })),
            None => (mods, None),
        },
        None => (mods, None),
    }
}

/// The modifiers with none held.
pub open spec fn no_modifiers() -> Modifiers {
    Modifiers { shift: false, alt: false, ctrl: false, mac_cmd: false, command: false }
}

/// Pressing a key and releasing it again leaves the modifiers as they were when none was held,
/// and a key that is not a modifier never changes them.
pub proof fn law_release_undoes_press(k: DrawKey, macos: bool)
    ensures
        spec_key_event(spec_key_event(no_modifiers(), true, Some(k), macos).0, false, Some(k), macos).0 == no_modifiers(),
        !(k is ModifierShift || k is ModifierAlt || k is ModifierMeta || k is ModifierCtrl) ==>
            forall|mods: Modifiers, pressed: bool| #[trigger] spec_key_event(mods, pressed, Some(k), macos).0 == mods,
{
}

/// A key that stands for a dialog key is passed on, pressed or released, with the modifiers held.
pub proof fn law_keys_pass_through(mods: Modifiers, pressed: bool, k: DrawKey, macos: bool)
    requires
        key_for(k) is Some,
    ensures
        spec_key_event(mods, pressed, Some(k), macos)
            == (mods, Some(KeyInput { key: key_for(k)->0, pressed, modifiers: mods })),
{
}

/// Letters, digits and function keys keep their meaning: each letter key stands for the same
/// letter, each digit key (on the main keyboard or the numeric keypad) for the same digit, and each
/// function key for the same function key.
pub proof fn law_keys_keep_their_meaning()
    ensures
        key_for(DrawKey::KeyA) == Some(DialogKey::A),
        key_for(DrawKey::KeyB) == Some(DialogKey::B),
        key_for(DrawKey::KeyC) == Some(DialogKey::C),
        key_for(DrawKey::KeyD) == Some(DialogKey::D),
        key_for(DrawKey::KeyE) == Some(DialogKey::E),
        key_for(DrawKey::KeyF) == Some(DialogKey::F),
        key_for(DrawKey::KeyG) == Some(DialogKey::G),
        key_for(DrawKey::KeyH) == Some(DialogKey::H),
        key_for(DrawKey::KeyI) == Some(DialogKey::I),
        key_for(DrawKey::KeyJ) == Some(DialogKey::J),
        key_for(DrawKey::KeyK) == Some(DialogKey::K),
        key_for(DrawKey::KeyL) == Some(DialogKey::L),
        key_for(DrawKey::KeyM) == Some(DialogKey::M),
        key_for(DrawKey::KeyN) == Some(DialogKey::N),
        key_for(DrawKey::KeyO) == Some(DialogKey::O),
        key_for(DrawKey::KeyP) == Some(DialogKey::P),
        key_for(DrawKey::KeyQ) == Some(DialogKey::Q),
        key_for(DrawKey::KeyR) == Some(DialogKey::R),
        key_for(DrawKey::KeyS) == Some(DialogKey::S),
        key_for(DrawKey::KeyT) == Some(DialogKey::T),
        key_for(DrawKey::KeyU) == Some(DialogKey::U),
        key_for(DrawKey::KeyV) == Some(DialogKey::V),
        key_for(DrawKey::KeyW) == Some(DialogKey::W),
        key_for(DrawKey::KeyX) == Some(DialogKey::X),
        key_for(DrawKey::KeyY) == Some(DialogKey::Y),
        key_for(DrawKey::KeyZ) == Some(DialogKey::Z),
        key_for(DrawKey::Key0) == Some(DialogKey::Num0),
        key_for(DrawKey::KeyNumpad0) == Some(DialogKey::Num0),
        key_for(DrawKey::Key1) == Some(DialogKey::Num1),
        key_for(DrawKey::KeyNumpad1) == Some(DialogKey::Num1),
        key_for(DrawKey::Key2) == Some(DialogKey::Num2),
        key_for(DrawKey::KeyNumpad2) == Some(DialogKey::Num2),
        key_for(DrawKey::Key3) == Some(DialogKey::Num3),
        key_for(DrawKey::KeyNumpad3) == Some(DialogKey::Num3),
        key_for(DrawKey::Key4) == Some(DialogKey::Num4),
        key_for(DrawKey::KeyNumpad4) == Some(DialogKey::Num4),
        key_for(DrawKey::Key5) == Some(DialogKey::Num5),
        key_for(DrawKey::KeyNumpad5) == Some(DialogKey::Num5),
        key_for(DrawKey::Key6) == Some(DialogKey::Num6),
        key_for(DrawKey::KeyNumpad6) == Some(DialogKey::Num6),
        key_for(DrawKey::Key7) == Some(DialogKey::Num7),
        key_for(DrawKey::KeyNumpad7) == Some(DialogKey::Num7),
        key_for(DrawKey::Key8) == Some(DialogKey::Num8),
        key_for(DrawKey::KeyNumpad8) == Some(DialogKey::Num8),
        key_for(DrawKey::Key9) == Some(DialogKey::Num9),
        key_for(DrawKey::KeyNumpad9) == Some(DialogKey::Num9),
        key_for(DrawKey::KeyF1) == Some(DialogKey::F1),
        key_for(DrawKey::KeyF2) == Some(DialogKey::F2),
        key_for(DrawKey::KeyF3) == Some(DialogKey::F3),
        key_for(DrawKey::KeyF4) == Some(DialogKey::F4),
        key_for(DrawKey::KeyF5) == Some(DialogKey::F5),
        key_for(DrawKey::KeyF6) == Some(DialogKey::F6),
        key_for(DrawKey::KeyF7) == Some(DialogKey::F7),
        key_for(DrawKey::KeyF8) == Some(DialogKey::F8),
        key_for(DrawKey::KeyF9) == Some(DialogKey::F9),
        key_for(DrawKey::KeyF10) == Some(DialogKey::F10),
        key_for(DrawKey::KeyF11) == Some(DialogKey::F11),
        key_for(DrawKey::KeyF12) == Some(DialogKey::F12),
        key_for(DrawKey::KeyF13) == Some(DialogKey::F13),
        key_for(DrawKey::KeyF14) == Some(DialogKey::F14),
        key_for(DrawKey::KeyF15) == Some(DialogKey::F15),
        key_for(DrawKey::KeyF16) == Some(DialogKey::F16),
        key_for(DrawKey::KeyUp) == Some(DialogKey::ArrowUp),
        key_for(DrawKey::KeyDown) == Some(DialogKey::ArrowDown),
        key_for(DrawKey::KeyLeft) == Some(DialogKey::ArrowLeft),
        key_for(DrawKey::KeyRight) == Some(DialogKey::ArrowRight),
        key_for(DrawKey::KeyEnter) == Some(DialogKey::Enter),
        key_for(DrawKey::KeyNumpadEnter) == Some(DialogKey::Enter),
        key_for(DrawKey::KeyBackspace) == Some(DialogKey::Backspace),
        key_for(DrawKey::KeyDelete) == Some(DialogKey::Delete),
        key_for(DrawKey::KeyTab) == Some(DialogKey::Tab),
        key_for(DrawKey::KeySpace) == Some(DialogKey::Space),
        key_for(DrawKey::KeyEscape) == Some(DialogKey::Escape),
{
}

/// Modifier keys and unknown keys stand for no dialog key, and two different letter keys never
/// stand for the same dialog key.
pub proof fn law_modifiers_are_not_dialog_keys(a: DrawKey, b: DrawKey)
    ensures
        key_for(DrawKey::Unknown) is None,
        key_for(DrawKey::ModifierShift) is None,
        key_for(DrawKey::ModifierCtrl) is None,
        key_for(DrawKey::ModifierAlt) is None,
        key_for(DrawKey::ModifierMeta) is None,
        key_for(DrawKey::ModifierSuper) is None,
        key_for(DrawKey::ModifierHyper) is None,
        is_letter(a) && is_letter(b) && a != b ==> key_for(a) != key_for(b),
{
}

/// The letter keys.
pub open spec fn is_letter(k: DrawKey) -> bool {

    k is KeyA || k is KeyB || k is KeyC || k is KeyD || k is KeyE || k is KeyF || k is KeyG || k is KeyH || k is KeyI || k is KeyJ || k is KeyK || k is KeyL || k is KeyM || k is KeyN || k is KeyO || k is KeyP || k is KeyQ || k is KeyR || k is KeyS || k is KeyT || k is KeyU || k is KeyV || k is KeyW || k is KeyX || k is KeyY || k is KeyZ
}

} // verus!
