//! The words of the script language and what they stand for.

use crate::model::{Button, Key, MoveMode};
use crate::text::{is_word, lower_char, reads_as, to_lower};
use vstd::prelude::*;

verus! {

/// What an action expression asks for, by its first word.
#[derive(Debug, Clone, Copy, PartialEq, Eq, Structural)]
pub enum Verb {
    /// `mousemove`: move the pointer.
    MouseMove,
    /// `mousedown`: press a button.
    MouseDown,
    /// `mouseup`: let a button go.
    MouseUp,
    /// `keydown`: press a key.
    KeyDown,
    /// `keyup`: let a key go.
    KeyUp,
    /// `text`: type a text.
    Text,
}

/// The word that a script writes for the verb.
pub open spec fn verb_name(verb: Verb) -> Seq<char> {
    match verb {
        Verb::MouseMove => "mousemove"@,
        Verb::MouseDown => "mousedown"@,
        Verb::MouseUp => "mouseup"@,
        Verb::KeyDown => "keydown"@,
        Verb::KeyUp => "keyup"@,
        Verb::Text => "text"@,
    }
}

/// The verb that `word` writes, if it writes one. Verbs are in lower case.
pub open spec fn named_verb(word: Seq<char>) -> Option<Verb> {
    if word == "mousemove"@ {
        Some(Verb::MouseMove)
    } else if word == "mousedown"@ {
        Some(Verb::MouseDown)
    } else if word == "mouseup"@ {
        Some(Verb::MouseUp)
    } else if word == "keydown"@ {
        Some(Verb::KeyDown)
    } else if word == "keyup"@ {
        Some(Verb::KeyUp)
    } else if word == "text"@ {
        Some(Verb::Text)
    } else {
        None
    }
}

/// Looks `word` up among the verbs.
pub fn find_verb(word: &[char]) -> (r: Option<Verb>)
    ensures
        r == named_verb(word@),
{
    if reads_as(word, "mousemove") {
        Some(Verb::MouseMove)
    } else if reads_as(word, "mousedown") {
        Some(Verb::MouseDown)
    } else if reads_as(word, "mouseup") {
        Some(Verb::MouseUp)
    } else if reads_as(word, "keydown") {
        Some(Verb::KeyDown)
    } else if reads_as(word, "keyup") {
        Some(Verb::KeyUp)
    } else if reads_as(word, "text") {
        Some(Verb::Text)
    } else {
        None
    }
}

/// The word that a script writes for the mode of a move.
pub open spec fn mode_name(mode: MoveMode) -> Seq<char> {
    match mode {
        MoveMode::Absolute => "abs"@,
        MoveMode::Relative => "rel"@,
    }
}

/// The mode that `word` writes, if it writes one.
pub open spec fn named_mode(word: Seq<char>) -> Option<MoveMode> {
    if word == "abs"@ {
        Some(MoveMode::Absolute)
    } else if word == "rel"@ {
        Some(MoveMode::Relative)
    } else {
        None
    }
}

/// Looks `word` up among the modes of a move.
pub fn find_mode(word: &[char]) -> (r: Option<MoveMode>)
    ensures
        r == named_mode(word@),
{
    if reads_as(word, "abs") {
        Some(MoveMode::Absolute)
    } else if reads_as(word, "rel") {
        Some(MoveMode::Relative)
    } else {
        None
    }
}

/// The number that a script writes for the button.
pub open spec fn button_number(button: Button) -> u64 {
    match button {
        Button::Left => 1,
        Button::Right => 2,
        Button::Middle => 3,
        Button::Back => 4,
        Button::Forward => 5,
    }
}

/// The number that a script writes for the button.
pub fn number_of_button(button: Button) -> (n: u64)
    ensures
        n == button_number(button),
{
    match button {
        Button::Left => 1,
        Button::Right => 2,
        Button::Middle => 3,
        Button::Back => 4,
        Button::Forward => 5,
    }
}

/// The button with the number `n`, if there is one.
pub open spec fn numbered_button(n: u64) -> Option<Button> {
    if n == 1 {
        Some(Button::Left)
    } else if n == 2 {
        Some(Button::Right)
    } else if n == 3 {
        Some(Button::Middle)
    } else if n == 4 {
        Some(Button::Back)
    } else if n == 5 {
        Some(Button::Forward)
    } else {
        None
    }
}

/// Looks the number `n` up among the buttons.
pub fn find_button(n: u64) -> (r: Option<Button>)
    ensures
        r == numbered_button(n),
{
    if n == 1 {
        Some(Button::Left)
    } else if n == 2 {
        Some(Button::Right)
    } else if n == 3 {
        Some(Button::Middle)
    } else if n == 4 {
        Some(Button::Back)
    } else if n == 5 {
        Some(Button::Forward)
    } else {
        None
    }
}

/// `word` with its ASCII upper-case letters in lower case.
pub open spec fn lower(word: Seq<char>) -> Seq<char> {
    Seq::new(word.len(), |i: int| lower_char(word[i]))
}

/// Folds the ASCII upper-case letters of `word` to lower case.
pub fn lowered(word: &[char]) -> (r: Vec<char>)
    ensures
        r@ == lower(word@),
{
    let mut r: Vec<char> = Vec::new();
    let mut i: usize = 0;
    while i < word.len()
        invariant
            i <= word.len(),
            r@ == lower(word@.take(i as int)),
        decreases word.len() - i,
    {
        r.push(to_lower(word[i]));
        assert(r@ =~= lower(word@.take(i + 1)));
        i += 1;
    }
    assert(word@.take(i as int) =~= word@);
    r
}

/// The word that a script writes for the key: the name of a named key, and
/// the character of a character key.
pub open spec fn key_name(key: Key) -> Seq<char> {
    match key {
        Key::Alt => "alt"@,
        Key::Backspace => "backspace"@,
        Key::CapsLock => "capslock"@,
        Key::Control => "control"@,
        Key::Delete => "delete"@,
        Key::DownArrow => "down"@,
        Key::End => "end"@,
        Key::Return => "enter"@,
        Key::Escape => "escape"@,
        Key::F1 => "f1"@,
        Key::F2 => "f2"@,
        Key::F3 => "f3"@,
        Key::F4 => "f4"@,
        Key::F5 => "f5"@,
        Key::F6 => "f6"@,
        Key::F7 => "f7"@,
        Key::F8 => "f8"@,
        Key::F9 => "f9"@,
        Key::F10 => "f10"@,
        Key::F11 => "f11"@,
        Key::F12 => "f12"@,
        Key::F13 => "f13"@,
        Key::F14 => "f14"@,
        Key::F15 => "f15"@,
        Key::F16 => "f16"@,
        Key::F17 => "f17"@,
        Key::F18 => "f18"@,
        Key::F19 => "f19"@,
        Key::F20 => "f20"@,
        Key::Home => "home"@,
        Key::Insert => "insert"@,
        Key::LeftArrow => "left"@,
        Key::PageDown => "pagedown"@,
        Key::PageUp => "pageup"@,
        Key::RightArrow => "right"@,
        Key::Shift => "shift"@,
        Key::Space => "space"@,
        Key::Meta => "super"@,
        Key::Tab => "tab"@,
        Key::UpArrow => "up"@,
        Key::Unicode(c) => seq![c],
    }
}

/// The named key that `word` names, if it names one. Names are in lower
/// case.
pub open spec fn named_key(word: Seq<char>) -> Option<Key> {
    if word == "alt"@ {
        Some(Key::Alt)
    } else if word == "backspace"@ {
        Some(Key::Backspace)
    } else if word == "capslock"@ {
        Some(Key::CapsLock)
    } else if word == "control"@ {
        Some(Key::Control)
    } else if word == "delete"@ {
        Some(Key::Delete)
    } else if word == "down"@ {
        Some(Key::DownArrow)
    } else if word == "end"@ {
        Some(Key::End)
    } else if word == "enter"@ {
        Some(Key::Return)
    } else if word == "escape"@ {
        Some(Key::Escape)
    } else if word == "f1"@ {
        Some(Key::F1)
    } else if word == "f2"@ {
        Some(Key::F2)
    } else if word == "f3"@ {
        Some(Key::F3)
    } else if word == "f4"@ {
        Some(Key::F4)
    } else if word == "f5"@ {
        Some(Key::F5)
    } else if word == "f6"@ {
        Some(Key::F6)
    } else if word == "f7"@ {
        Some(Key::F7)
    } else if word == "f8"@ {
        Some(Key::F8)
    } else if word == "f9"@ {
        Some(Key::F9)
    } else if word == "f10"@ {
        Some(Key::F10)
    } else if word == "f11"@ {
        Some(Key::F11)
    } else if word == "f12"@ {
        Some(Key::F12)
    } else if word == "f13"@ {
        Some(Key::F13)
    } else if word == "f14"@ {
        Some(Key::F14)
    } else if word == "f15"@ {
        Some(Key::F15)
    } else if word == "f16"@ {
        Some(Key::F16)
    } else if word == "f17"@ {
        Some(Key::F17)
    } else if word == "f18"@ {
        Some(Key::F18)
    } else if word == "f19"@ {
        Some(Key::F19)
    } else if word == "f20"@ {
        Some(Key::F20)
    } else if word == "home"@ {
        Some(Key::Home)
    } else if word == "insert"@ {
        Some(Key::Insert)
    } else if word == "left"@ {
        Some(Key::LeftArrow)
    } else if word == "pagedown"@ {
        Some(Key::PageDown)
    } else if word == "pageup"@ {
        Some(Key::PageUp)
    } else if word == "right"@ {
        Some(Key::RightArrow)
    } else if word == "shift"@ {
        Some(Key::Shift)
    } else if word == "space"@ {
        Some(Key::Space)
    } else if word == "super"@ {
        Some(Key::Meta)
    } else if word == "tab"@ {
        Some(Key::Tab)
    } else if word == "up"@ {
        Some(Key::UpArrow)
    } else {
        None
    }
}

/// Looks `word` up among the named keys.
pub fn find_key(word: &[char]) -> (r: Option<Key>)
    ensures
        r == named_key(word@),
{
    if reads_as(word, "alt") {
        Some(Key::Alt)
    } else if reads_as(word, "backspace") {
        Some(Key::Backspace)
    } else if reads_as(word, "capslock") {
        Some(Key::CapsLock)
    } else if reads_as(word, "control") {
        Some(Key::Control)
    } else if reads_as(word, "delete") {
        Some(Key::Delete)
    } else if reads_as(word, "down") {
        Some(Key::DownArrow)
    } else if reads_as(word, "end") {
        Some(Key::End)
    } else if reads_as(word, "enter") {
        Some(Key::Return)
    } else if reads_as(word, "escape") {
        Some(Key::Escape)
    } else if reads_as(word, "f1") {
        Some(Key::F1)
    } else if reads_as(word, "f2") {
        Some(Key::F2)
    } else if reads_as(word, "f3") {
        Some(Key::F3)
    } else if reads_as(word, "f4") {
        Some(Key::F4)
    } else if reads_as(word, "f5") {
        Some(Key::F5)
    } else if reads_as(word, "f6") {
        Some(Key::F6)
    } else if reads_as(word, "f7") {
        Some(Key::F7)
    } else if reads_as(word, "f8") {
        Some(Key::F8)
    } else if reads_as(word, "f9") {
        Some(Key::F9)
    } else if reads_as(word, "f10") {
        Some(Key::F10)
    } else if reads_as(word, "f11") {
        Some(Key::F11)
    } else if reads_as(word, "f12") {
        Some(Key::F12)
    } else if reads_as(word, "f13") {
        Some(Key::F13)
    } else if reads_as(word, "f14") {
        Some(Key::F14)
    } else if reads_as(word, "f15") {
        Some(Key::F15)
    } else if reads_as(word, "f16") {
        Some(Key::F16)
    } else if reads_as(word, "f17") {
        Some(Key::F17)
    } else if reads_as(word, "f18") {
        Some(Key::F18)
    } else if reads_as(word, "f19") {
        Some(Key::F19)
    } else if reads_as(word, "f20") {
        Some(Key::F20)
    } else if reads_as(word, "home") {
        Some(Key::Home)
    } else if reads_as(word, "insert") {
        Some(Key::Insert)
    } else if reads_as(word, "left") {
        Some(Key::LeftArrow)
    } else if reads_as(word, "pagedown") {
        Some(Key::PageDown)
    } else if reads_as(word, "pageup") {
        Some(Key::PageUp)
    } else if reads_as(word, "right") {
        Some(Key::RightArrow)
    } else if reads_as(word, "shift") {
        Some(Key::Shift)
    } else if reads_as(word, "space") {
        Some(Key::Space)
    } else if reads_as(word, "super") {
        Some(Key::Meta)
    } else if reads_as(word, "tab") {
        Some(Key::Tab)
    } else if reads_as(word, "up") {
        Some(Key::UpArrow)
    } else {
        None
    }
}

/// How the verbs and the modes are spelled.
pub proof fn lemma_verbs_spelled()
    ensures
        "mousemove"@ == seq!['m', 'o', 'u', 's', 'e', 'm', 'o', 'v', 'e'],
        "mousedown"@ == seq!['m', 'o', 'u', 's', 'e', 'd', 'o', 'w', 'n'],
        "mouseup"@ == seq!['m', 'o', 'u', 's', 'e', 'u', 'p'],
        "keydown"@ == seq!['k', 'e', 'y', 'd', 'o', 'w', 'n'],
        "keyup"@ == seq!['k', 'e', 'y', 'u', 'p'],
        "text"@ == seq!['t', 'e', 'x', 't'],
        "abs"@ == seq!['a', 'b', 's'],
        "rel"@ == seq!['r', 'e', 'l'],
{
    reveal_strlit("mousemove");
    assert("mousemove"@ =~= seq!['m', 'o', 'u', 's', 'e', 'm', 'o', 'v', 'e']);
    reveal_strlit("mousedown");
    assert("mousedown"@ =~= seq!['m', 'o', 'u', 's', 'e', 'd', 'o', 'w', 'n']);
    reveal_strlit("mouseup");
    assert("mouseup"@ =~= seq!['m', 'o', 'u', 's', 'e', 'u', 'p']);
    reveal_strlit("keydown");
    assert("keydown"@ =~= seq!['k', 'e', 'y', 'd', 'o', 'w', 'n']);
    reveal_strlit("keyup");
    assert("keyup"@ =~= seq!['k', 'e', 'y', 'u', 'p']);
    reveal_strlit("text");
    assert("text"@ =~= seq!['t', 'e', 'x', 't']);
    reveal_strlit("abs");
    assert("abs"@ =~= seq!['a', 'b', 's']);
    reveal_strlit("rel");
    assert("rel"@ =~= seq!['r', 'e', 'l']);
}

/// How the named keys are spelled.
pub proof fn lemma_keys_spelled()
    ensures
        "alt"@ == seq!['a', 'l', 't'],
        "backspace"@ == seq!['b', 'a', 'c', 'k', 's', 'p', 'a', 'c', 'e'],
        "capslock"@ == seq!['c', 'a', 'p', 's', 'l', 'o', 'c', 'k'],
        "control"@ == seq!['c', 'o', 'n', 't', 'r', 'o', 'l'],
        "delete"@ == seq!['d', 'e', 'l', 'e', 't', 'e'],
        "down"@ == seq!['d', 'o', 'w', 'n'],
        "end"@ == seq!['e', 'n', 'd'],
        "enter"@ == seq!['e', 'n', 't', 'e', 'r'],
        "escape"@ == seq!['e', 's', 'c', 'a', 'p', 'e'],
        "f1"@ == seq!['f', '1'],
        "f2"@ == seq!['f', '2'],
        "f3"@ == seq!['f', '3'],
        "f4"@ == seq!['f', '4'],
        "f5"@ == seq!['f', '5'],
        "f6"@ == seq!['f', '6'],
        "f7"@ == seq!['f', '7'],
        "f8"@ == seq!['f', '8'],
        "f9"@ == seq!['f', '9'],
        "f10"@ == seq!['f', '1', '0'],
        "f11"@ == seq!['f', '1', '1'],
        "f12"@ == seq!['f', '1', '2'],
        "f13"@ == seq!['f', '1', '3'],
        "f14"@ == seq!['f', '1', '4'],
        "f15"@ == seq!['f', '1', '5'],
        "f16"@ == seq!['f', '1', '6'],
        "f17"@ == seq!['f', '1', '7'],
        "f18"@ == seq!['f', '1', '8'],
        "f19"@ == seq!['f', '1', '9'],
        "f20"@ == seq!['f', '2', '0'],
        "home"@ == seq!['h', 'o', 'm', 'e'],
        "insert"@ == seq!['i', 'n', 's', 'e', 'r', 't'],
        "left"@ == seq!['l', 'e', 'f', 't'],
        "pagedown"@ == seq!['p', 'a', 'g', 'e', 'd', 'o', 'w', 'n'],
        "pageup"@ == seq!['p', 'a', 'g', 'e', 'u', 'p'],
        "right"@ == seq!['r', 'i', 'g', 'h', 't'],
        "shift"@ == seq!['s', 'h', 'i', 'f', 't'],
        "space"@ == seq!['s', 'p', 'a', 'c', 'e'],
        "super"@ == seq!['s', 'u', 'p', 'e', 'r'],
        "tab"@ == seq!['t', 'a', 'b'],
        "up"@ == seq!['u', 'p'],
{
    reveal_strlit("alt");
    assert("alt"@ =~= seq!['a', 'l', 't']);
    reveal_strlit("backspace");
    assert("backspace"@ =~= seq!['b', 'a', 'c', 'k', 's', 'p', 'a', 'c', 'e']);
    reveal_strlit("capslock");
    assert("capslock"@ =~= seq!['c', 'a', 'p', 's', 'l', 'o', 'c', 'k']);
    reveal_strlit("control");
    assert("control"@ =~= seq!['c', 'o', 'n', 't', 'r', 'o', 'l']);
    reveal_strlit("delete");
    assert("delete"@ =~= seq!['d', 'e', 'l', 'e', 't', 'e']);
    reveal_strlit("down");
    assert("down"@ =~= seq!['d', 'o', 'w', 'n']);
    reveal_strlit("end");
    assert("end"@ =~= seq!['e', 'n', 'd']);
    reveal_strlit("enter");
    assert("enter"@ =~= seq!['e', 'n', 't', 'e', 'r']);
    reveal_strlit("escape");
    assert("escape"@ =~= seq!['e', 's', 'c', 'a', 'p', 'e']);
    reveal_strlit("f1");
    assert("f1"@ =~= seq!['f', '1']);
    reveal_strlit("f2");
    assert("f2"@ =~= seq!['f', '2']);
    reveal_strlit("f3");
    assert("f3"@ =~= seq!['f', '3']);
    reveal_strlit("f4");
    assert("f4"@ =~= seq!['f', '4']);
    reveal_strlit("f5");
    assert("f5"@ =~= seq!['f', '5']);
    reveal_strlit("f6");
    assert("f6"@ =~= seq!['f', '6']);
    reveal_strlit("f7");
    assert("f7"@ =~= seq!['f', '7']);
    reveal_strlit("f8");
    assert("f8"@ =~= seq!['f', '8']);
    reveal_strlit("f9");
    assert("f9"@ =~= seq!['f', '9']);
    reveal_strlit("f10");
    assert("f10"@ =~= seq!['f', '1', '0']);
    reveal_strlit("f11");
    assert("f11"@ =~= seq!['f', '1', '1']);
    reveal_strlit("f12");
    assert("f12"@ =~= seq!['f', '1', '2']);
    reveal_strlit("f13");
    assert("f13"@ =~= seq!['f', '1', '3']);
    reveal_strlit("f14");
    assert("f14"@ =~= seq!['f', '1', '4']);
    reveal_strlit("f15");
    assert("f15"@ =~= seq!['f', '1', '5']);
    reveal_strlit("f16");
    assert("f16"@ =~= seq!['f', '1', '6']);
    reveal_strlit("f17");
    assert("f17"@ =~= seq!['f', '1', '7']);
    reveal_strlit("f18");
    assert("f18"@ =~= seq!['f', '1', '8']);
    reveal_strlit("f19");
    assert("f19"@ =~= seq!['f', '1', '9']);
    reveal_strlit("f20");
    assert("f20"@ =~= seq!['f', '2', '0']);
    reveal_strlit("home");
    assert("home"@ =~= seq!['h', 'o', 'm', 'e']);
    reveal_strlit("insert");
    assert("insert"@ =~= seq!['i', 'n', 's', 'e', 'r', 't']);
    reveal_strlit("left");
    assert("left"@ =~= seq!['l', 'e', 'f', 't']);
    reveal_strlit("pagedown");
    assert("pagedown"@ =~= seq!['p', 'a', 'g', 'e', 'd', 'o', 'w', 'n']);
    reveal_strlit("pageup");
    assert("pageup"@ =~= seq!['p', 'a', 'g', 'e', 'u', 'p']);
    reveal_strlit("right");
    assert("right"@ =~= seq!['r', 'i', 'g', 'h', 't']);
    reveal_strlit("shift");
    assert("shift"@ =~= seq!['s', 'h', 'i', 'f', 't']);
    reveal_strlit("space");
    assert("space"@ =~= seq!['s', 'p', 'a', 'c', 'e']);
    reveal_strlit("super");
    assert("super"@ =~= seq!['s', 'u', 'p', 'e', 'r']);
    reveal_strlit("tab");
    assert("tab"@ =~= seq!['t', 'a', 'b']);
    reveal_strlit("up");
    assert("up"@ =~= seq!['u', 'p']);
}

/// The word of a verb is a word, and names the verb.
pub proof fn lemma_verb_names(verb: Verb)
    ensures
        is_word(verb_name(verb)),
        named_verb(verb_name(verb)) == Some(verb),
{
    lemma_verbs_spelled();
}

/// The word of a mode is a word, and names the mode.
pub proof fn lemma_mode_names(mode: MoveMode)
    ensures
        is_word(mode_name(mode)),
        named_mode(mode_name(mode)) == Some(mode),
{
    lemma_verbs_spelled();
}

/// The name of a named key has two characters or more.
pub proof fn lemma_named_key_is_long(word: Seq<char>)
    ensures
        named_key(word) is Some ==> word.len() >= 2,
{
    lemma_keys_spelled();
}

/// The name of a named key is a word in lower case, and names the key.
pub proof fn lemma_key_names(key: Key)
    requires
        !(key is Unicode),
    ensures
        is_word(key_name(key)),
        lower(key_name(key)) == key_name(key),
        named_key(key_name(key)) == Some(key),
{
    lemma_keys_spelled();
    assert(lower(key_name(key)) =~= key_name(key));
}

} // verus!
