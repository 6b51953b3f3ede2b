//! What a run writes to its log: one line for each action.

use crate::model::{Action, ActionView, Button, Key, MoveMode};
use crate::number::{decimal_digits, push_decimal, push_signed, signed_digits};
use vstd::prelude::*;
use vstd::string::StringExecFns;

verus! {

/// The form that the standard library's `Debug` gives a string: between
/// double quotes, with escapes where it sees the need.
pub uninterp spec fn debug_form(text: Seq<char>) -> Seq<char>;

/// The form that the standard library's `Debug` gives a character: between
/// single quotes, with an escape where it sees the need.
pub uninterp spec fn char_debug_form(c: char) -> Seq<char>;

/// Writes a string as `Debug` does: `<str as Debug>::fmt` of the standard
/// library, through `format!`. The contract claims only that what comes out
/// hangs on the characters of the string and on nothing else.
#[verifier::external_body]
fn quoted_text(text: &str) -> (s: String)
    ensures
        s@ == debug_form(text@),
{
    format!("{:?}", text)
}

/// Writes a character as `Debug` does: `<char as Debug>::fmt` of the
/// standard library, through `format!`. The contract claims only that what
/// comes out hangs on the character and on nothing else.
#[verifier::external_body]
fn quoted_char(c: char) -> (s: String)
    ensures
        s@ == char_debug_form(c),
{
    format!("{:?}", c)
}

/// The name of the button in a log.
pub open spec fn button_label(button: Button) -> Seq<char> {
    match button {
        Button::Left => "Left"@,
        Button::Right => "Right"@,
        Button::Middle => "Middle"@,
        Button::Back => "Back"@,
        Button::Forward => "Forward"@,
    }
}

/// The name of the key in a log. The name of a character key holds the
/// character in its quoted form, which is `quoted`.
pub open spec fn key_label(key: Key, quoted: Seq<char>) -> Seq<char> {
    match key {
        Key::Alt => "Alt"@,
        Key::Backspace => "Backspace"@,
        Key::CapsLock => "CapsLock"@,
        Key::Control => "Control"@,
        Key::Delete => "Delete"@,
        Key::DownArrow => "DownArrow"@,
        Key::End => "End"@,
        Key::Return => "Return"@,
        Key::Escape => "Escape"@,
        Key::F1 => "F1"@,
        Key::F2 => "F2"@,
        Key::F3 => "F3"@,
        Key::F4 => "F4"@,
        Key::F5 => "F5"@,
        Key::F6 => "F6"@,
        Key::F7 => "F7"@,
        Key::F8 => "F8"@,
        Key::F9 => "F9"@,
        Key::F10 => "F10"@,
        Key::F11 => "F11"@,
        Key::F12 => "F12"@,
        Key::F13 => "F13"@,
        Key::F14 => "F14"@,
        Key::F15 => "F15"@,
        Key::F16 => "F16"@,
        Key::F17 => "F17"@,
        Key::F18 => "F18"@,
        Key::F19 => "F19"@,
        Key::F20 => "F20"@,
        Key::Home => "Home"@,
        Key::Insert => "Insert"@,
        Key::LeftArrow => "LeftArrow"@,
        Key::PageDown => "PageDown"@,
        Key::PageUp => "PageUp"@,
        Key::RightArrow => "RightArrow"@,
        Key::Shift => "Shift"@,
        Key::Space => "Space"@,
        Key::Meta => "Meta"@,
        Key::Tab => "Tab"@,
        Key::UpArrow => "UpArrow"@,
        Key::Unicode(_) => "Unicode("@ + quoted + ")"@,
    }
}

/// The part of an action that a log shows in quoted form: the text that is
/// typed, the character of a character key, and nothing of other actions.
pub open spec fn quoted_part(action: ActionView) -> Seq<char> {
    match action {
        ActionView::TypeText { text } => debug_form(text),
        ActionView::KeyDown { key: Key::Unicode(c) } => char_debug_form(c),
        ActionView::KeyUp { key: Key::Unicode(c) } => char_debug_form(c),
        _ => seq![],
    }
}

/// What a log says an action does, where `quoted` is the quoted form of its
/// text or character.
pub open spec fn description(action: ActionView, quoted: Seq<char>) -> Seq<char> {
    match action {
        ActionView::PointerMove { x, y, duration, mode: MoveMode::Absolute } => "Move mouse to "@
            + signed_digits(x as int) + ", "@ + signed_digits(y as int) + " over "@
            + decimal_digits(duration as nat) + "ms (absolute)"@,
        ActionView::PointerMove { x, y, duration, mode: MoveMode::Relative } => "Move mouse by "@
            + signed_digits(x as int) + ", "@ + signed_digits(y as int) + " over "@
            + decimal_digits(duration as nat) + "ms (relative)"@,
        ActionView::ButtonDown { button } => "Press mouse "@ + button_label(button),
        ActionView::ButtonUp { button } => "Release mouse "@ + button_label(button),
        ActionView::KeyDown { key } => "Press key "@ + key_label(key, quoted),
        ActionView::KeyUp { key } => "Release key "@ + key_label(key, quoted),
        ActionView::TypeText { text } => "Input text "@ + quoted,
    }
}

/// The line of an action done `time` milliseconds into the run, where
/// `quoted` is the quoted form of its text or character.
pub open spec fn log_text_with(time: u64, action: ActionView, quoted: Seq<char>) -> Seq<char> {
    "At "@ + decimal_digits(time as nat) + "ms: "@ + description(action, quoted)
}

/// What is logged of an action done `time` milliseconds into the run.
pub open spec fn log_text(time: u64, action: ActionView) -> Seq<char> {
    log_text_with(time, action, quoted_part(action))
}

/// Appends the name of `button` to `out`.
pub fn push_button_label(out: &mut String, button: Button)
    ensures
        final(out)@ == old(out)@ + button_label(button),
{
    match button {
        Button::Left => out.append("Left"),
        Button::Right => out.append("Right"),
        Button::Middle => out.append("Middle"),
        Button::Back => out.append("Back"),
        Button::Forward => out.append("Forward"),
    }
}

/// Appends the name of `key` to `out`, with `quoted` for the character of a
/// character key.
pub fn push_key_label(out: &mut String, key: Key, quoted: &str)
    ensures
        final(out)@ == old(out)@ + key_label(key, quoted@),
{
    match key {
        Key::Alt => out.append("Alt"),
        Key::Backspace => out.append("Backspace"),
        Key::CapsLock => out.append("CapsLock"),
        Key::Control => out.append("Control"),
        Key::Delete => out.append("Delete"),
        Key::DownArrow => out.append("DownArrow"),
        Key::End => out.append("End"),
        Key::Return => out.append("Return"),
        Key::Escape => out.append("Escape"),
        Key::F1 => out.append("F1"),
        Key::F2 => out.append("F2"),
        Key::F3 => out.append("F3"),
        Key::F4 => out.append("F4"),
        Key::F5 => out.append("F5"),
        Key::F6 => out.append("F6"),
        Key::F7 => out.append("F7"),
        Key::F8 => out.append("F8"),
        Key::F9 => out.append("F9"),
        Key::F10 => out.append("F10"),
        Key::F11 => out.append("F11"),
        Key::F12 => out.append("F12"),
        Key::F13 => out.append("F13"),
        Key::F14 => out.append("F14"),
        Key::F15 => out.append("F15"),
        Key::F16 => out.append("F16"),
        Key::F17 => out.append("F17"),
        Key::F18 => out.append("F18"),
        Key::F19 => out.append("F19"),
        Key::F20 => out.append("F20"),
        Key::Home => out.append("Home"),
        Key::Insert => out.append("Insert"),
        Key::LeftArrow => out.append("LeftArrow"),
        Key::PageDown => out.append("PageDown"),
        Key::PageUp => out.append("PageUp"),
        Key::RightArrow => out.append("RightArrow"),
        Key::Shift => out.append("Shift"),
        Key::Space => out.append("Space"),
        Key::Meta => out.append("Meta"),
        Key::Tab => out.append("Tab"),
        Key::UpArrow => out.append("UpArrow"),
        Key::Unicode(_) => {
            out.append("Unicode(");
            out.append(quoted);
            out.append(")");
            assert(out@ =~= old(out)@ + key_label(key, quoted@));
        },
    }
}

/// Appends to `out` what a log says `action` does, with `quoted` for the
/// quoted form of its text or character.
pub fn push_description(out: &mut String, action: &Action, quoted: &str)
    ensures
        final(out)@ == old(out)@ + description(action@, quoted@),
{
    match action {
        Action::PointerMove { x, y, duration, mode } => {
            match mode {
                MoveMode::Absolute => out.append("Move mouse to "),
                MoveMode::Relative => out.append("Move mouse by "),
            }
            push_signed(out, *x);
            out.append(", ");
            push_signed(out, *y);
            out.append(" over ");
            push_decimal(out, *duration);
            match mode {
                MoveMode::Absolute => out.append("ms (absolute)"),
                MoveMode::Relative => out.append("ms (relative)"),
            }
        },
        Action::ButtonDown { button } => {
            out.append("Press mouse ");
            push_button_label(out, *button);
        },
        Action::ButtonUp { button } => {
            out.append("Release mouse ");
            push_button_label(out, *button);
        },
        Action::KeyDown { key } => {
            out.append("Press key ");
            push_key_label(out, *key, quoted);
        },
        Action::KeyUp { key } => {
            out.append("Release key ");
            push_key_label(out, *key, quoted);
        },
        Action::TypeText { text } => {
            out.append("Input text ");
            out.append(quoted);
        },
    }
    assert(out@ =~= old(out)@ + description(action@, quoted@));
}

/// The line to log for an action done `time` milliseconds into the run,
/// where `quoted` is the quoted form of its text or character.
pub fn log_line_with(time: u64, action: &Action, quoted: &str) -> (s: String)
    ensures
        s@ == log_text_with(time, action@, quoted@),
{
    let mut s = String::new();
    s.append("At ");
    push_decimal(&mut s, time);
    s.append("ms: ");
    push_description(&mut s, action, quoted);
    assert(s@ =~= log_text_with(time, action@, quoted@));
    s
}

/// The quoted form of the text or the character of an action; empty for an
/// action that has neither.
pub fn quote_part(action: &Action) -> (s: String)
    ensures
        s@ == quoted_part(action@),
{
    match action {
        Action::TypeText { text } => quoted_text(text.as_str()),
        Action::KeyDown { key: Key::Unicode(c) } => quoted_char(*c),
        Action::KeyUp { key: Key::Unicode(c) } => quoted_char(*c),
        _ => String::new(),
    }
}

/// The line to log for an action done `time` milliseconds into the run.
pub fn log_line(time: u64, action: &Action) -> (s: String)
    ensures
        s@ == log_text(time, action@),
{
    let quoted = quote_part(action);
    log_line_with(time, action, quoted.as_str())
}

} // verus!
