//! Actions written back in the words of the script language.

use crate::action::{action_result, key_result, lemma_action_result_wf};
use crate::error::FaultView;
use crate::model::{Action, ActionView, Key, MoveMode, Platform};
use crate::names::{
    button_number, key_name, lemma_key_names, lemma_mode_names, lemma_named_key_is_long,
    lemma_verb_names, lower, mode_name, number_of_button, verb_name, Verb,
};
use crate::number::{
    decimal_digits, lemma_digits_are_word, lemma_digits_round_trip, lemma_signed_round_trip,
    push_decimal, push_signed, signed_digits,
};
use crate::text::{
    all_words, is_word, join, lemma_join_five, lemma_join_unfold, lemma_words_across_space,
    lemma_words_are_words, lemma_words_of_join, lemma_words_of_word, push_char, words,
};
use vstd::prelude::*;
use vstd::string::StringExecFns;

verus! {

/// The verb of the action and what stands behind it: the arguments, one
/// word each, or the text as it is.
pub open spec fn action_words(action: ActionView) -> Seq<Seq<char>> {
    match action {
        ActionView::PointerMove { x, y, duration, mode } => seq![
            verb_name(Verb::MouseMove),
            mode_name(mode),
            signed_digits(x as int),
            signed_digits(y as int),
            decimal_digits(duration as nat),
        ],
        ActionView::ButtonDown { button } => seq![
            verb_name(Verb::MouseDown),
            decimal_digits(button_number(button) as nat),
        ],
        ActionView::ButtonUp { button } => seq![
            verb_name(Verb::MouseUp),
            decimal_digits(button_number(button) as nat),
        ],
        ActionView::KeyDown { key } => seq![verb_name(Verb::KeyDown), key_name(key)],
        ActionView::KeyUp { key } => seq![verb_name(Verb::KeyUp), key_name(key)],
        ActionView::TypeText { text } => seq![verb_name(Verb::Text), text],
    }
}

/// The action as an action expression: its verb and arguments with a single
/// space between neighbours.
pub open spec fn rendered(action: ActionView) -> Seq<char> {
    join(action_words(action))
}

/// Appends the word for `key` to `out`.
pub fn push_key(out: &mut String, key: Key)
    ensures
        final(out)@ == old(out)@ + key_name(key),
{
    match key {
        Key::Alt => out.append("alt"),
        Key::Backspace => out.append("backspace"),
        Key::CapsLock => out.append("capslock"),
        Key::Control => out.append("control"),
        Key::Delete => out.append("delete"),
        Key::DownArrow => out.append("down"),
        Key::End => out.append("end"),
        Key::Return => out.append("enter"),
        Key::Escape => out.append("escape"),
        Key::F1 => out.append("f1"),
        Key::F2 => out.append("f2"),
        Key::F3 => out.append("f3"),
        Key::F4 => out.append("f4"),
        Key::F5 => out.append("f5"),
        Key::F6 => out.append("f6"),
        Key::F7 => out.append("f7"),
        Key::F8 => out.append("f8"),
        Key::F9 => out.append("f9"),
        Key::F10 => out.append("f10"),
        Key::F11 => out.append("f11"),
        Key::F12 => out.append("f12"),
        Key::F13 => out.append("f13"),
        Key::F14 => out.append("f14"),
        Key::F15 => out.append("f15"),
        Key::F16 => out.append("f16"),
        Key::F17 => out.append("f17"),
        Key::F18 => out.append("f18"),
        Key::F19 => out.append("f19"),
        Key::F20 => out.append("f20"),
        Key::Home => out.append("home"),
        Key::Insert => out.append("insert"),
        Key::LeftArrow => out.append("left"),
        Key::PageDown => out.append("pagedown"),
        Key::PageUp => out.append("pageup"),
        Key::RightArrow => out.append("right"),
        Key::Shift => out.append("shift"),
        Key::Space => out.append("space"),
        Key::Meta => out.append("super"),
        Key::Tab => out.append("tab"),
        Key::UpArrow => out.append("up"),
        Key::Unicode(c) => {
            push_char(out, c);
            assert(out@ =~= old(out)@ + key_name(key));
        },
    }
}

/// Appends the expression of a pointer move to `out`.
fn push_move(out: &mut String, x: i32, y: i32, duration: u64, mode: MoveMode)
    ensures
        final(out)@ == old(out)@ + rendered(ActionView::PointerMove { x, y, duration, mode }),
{
    let ghost w = action_words(ActionView::PointerMove { x, y, duration, mode });
    let ghost space = seq![' '];
    out.append("mousemove");
    push_char(out, ' ');
    match mode {
        MoveMode::Absolute => out.append("abs"),
        MoveMode::Relative => out.append("rel"),
    }
    assert(out@ =~= old(out)@ + (w[0] + space + w[1]));
    push_char(out, ' ');
    push_signed(out, x);
    assert(out@ =~= old(out)@ + (w[0] + space + w[1] + space + w[2]));
    push_char(out, ' ');
    push_signed(out, y);
    assert(out@ =~= old(out)@ + (w[0] + space + w[1] + space + w[2] + space + w[3]));
    push_char(out, ' ');
    push_decimal(out, duration);
    assert(out@ =~= old(out)@ + (w[0] + space + w[1] + space + w[2] + space + w[3] + space
        + w[4]));
    proof {
        lemma_join_five(w);
    }
}

/// Appends the action as an action expression to `out`.
pub fn push_action(out: &mut String, action: &Action)
    ensures
        final(out)@ == old(out)@ + rendered(action@),
{
    let ghost w = action_words(action@);
    proof {
        lemma_join_unfold(w);
    }
    match action {
        Action::PointerMove { x, y, duration, mode } => {
            push_move(out, *x, *y, *duration, *mode);
        },
        Action::ButtonDown { button } => {
            out.append("mousedown");
            push_char(out, ' ');
            push_decimal(out, number_of_button(*button));
            assert(out@ =~= old(out)@ + (w[0] + seq![' '] + w[1]));
        },
        Action::ButtonUp { button } => {
            out.append("mouseup");
            push_char(out, ' ');
            push_decimal(out, number_of_button(*button));
            assert(out@ =~= old(out)@ + (w[0] + seq![' '] + w[1]));
        },
        Action::KeyDown { key } => {
            out.append("keydown");
            push_char(out, ' ');
            push_key(out, *key);
            assert(out@ =~= old(out)@ + (w[0] + seq![' '] + w[1]));
        },
        Action::KeyUp { key } => {
            out.append("keyup");
            push_char(out, ' ');
            push_key(out, *key);
            assert(out@ =~= old(out)@ + (w[0] + seq![' '] + w[1]));
        },
        Action::TypeText { text } => {
            out.append("text");
            push_char(out, ' ');
            out.append(text.as_str());
            assert(out@ =~= old(out)@ + (w[0] + seq![' '] + w[1]));
        },
    }
}

/// The action as an action expression, such as `mousemove abs 10 20 500`.
pub fn render_action(action: &Action) -> (s: String)
    ensures
        s@ == rendered(action@),
{
    let mut s = String::new();
    push_action(&mut s, action);
    assert(Seq::<char>::empty() + rendered(action@) =~= rendered(action@));
    s
}

/// Writing an action as an action expression and reading the expression
/// gives the action back: for every action that is well formed and that the
/// platform can do.
pub proof fn lemma_render_round_trip(action: ActionView, platform: Platform)
    requires
        action.wf(),
        action.supported(platform),
    ensures
        action_result(words(rendered(action)), platform) == Ok::<ActionView, FaultView>(action),
{
    let w = action_words(action);
    match action {
        ActionView::PointerMove { x, y, duration, mode } => {
            lemma_verb_names(Verb::MouseMove);
            lemma_mode_names(mode);
            lemma_digits_are_word(x as int);
            lemma_digits_are_word(y as int);
            lemma_digits_are_word(duration as int);
            lemma_signed_round_trip(x);
            lemma_signed_round_trip(y);
            lemma_digits_round_trip(duration, u64::MAX);
            assert(all_words(w));
            lemma_words_of_join(w);
        },
        ActionView::ButtonDown { button } => {
            lemma_verb_names(Verb::MouseDown);
            lemma_digits_are_word(button_number(button) as int);
            lemma_digits_round_trip(button_number(button), 255);
            assert(all_words(w));
            lemma_words_of_join(w);
        },
        ActionView::ButtonUp { button } => {
            lemma_verb_names(Verb::MouseUp);
            lemma_digits_are_word(button_number(button) as int);
            lemma_digits_round_trip(button_number(button), 255);
            assert(all_words(w));
            lemma_words_of_join(w);
        },
        ActionView::KeyDown { key } => {
            lemma_verb_names(Verb::KeyDown);
            lemma_key_word(key);
            assert(all_words(w));
            lemma_words_of_join(w);
        },
        ActionView::KeyUp { key } => {
            lemma_verb_names(Verb::KeyUp);
            lemma_key_word(key);
            assert(all_words(w));
            lemma_words_of_join(w);
        },
        ActionView::TypeText { text } => {
            let verb = verb_name(Verb::Text);
            lemma_verb_names(Verb::Text);
            lemma_join_unfold(w);
            lemma_words_across_space(verb, text);
            lemma_words_of_word(verb);
            let all = words(rendered(action));
            assert(all =~= seq![verb] + words(text));
            assert(all.skip(1) =~= words(text));
        },
    }
}

/// What an expression asks for does not hang on how it is laid out: the
/// action that is read from it, written back, reads as the same action.
pub proof fn lemma_layout_is_free(expression: Seq<char>, platform: Platform)
    ensures
        action_result(words(expression), platform) matches Ok(action) ==> action_result(
            words(rendered(action)),
            platform,
        ) == Ok::<ActionView, FaultView>(action),
{
    lemma_words_are_words(expression);
    lemma_action_result_wf(words(expression), platform);
    if let Ok(action) = action_result(words(expression), platform) {
        lemma_render_round_trip(action, platform);
    }
}

/// The word of a key is a word, and reading it gives the key, where the key
/// is well formed.
pub proof fn lemma_key_word(key: Key)
    requires
        key.wf(),
    ensures
        is_word(key_name(key)),
        forall|verb: Verb, platform: Platform|
            platform.has_key(key) ==> #[trigger] key_result(verb, key_name(key), platform) == Ok::<
                Key,
                FaultView,
            >(key),
{
    match key {
        Key::Unicode(c) => {
            let w = key_name(key);
            assert(lower(w) =~= w);
            lemma_named_key_is_long(w);
        },
        _ => {
            lemma_key_names(key);
        },
    }
}

} // verus!
