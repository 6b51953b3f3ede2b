//! Action expressions: a verb and its arguments.

use crate::error::{Fault, FaultKind, FaultView};
use crate::model::{is_key_char, Action, ActionView, Button, Key, Platform};
use crate::names::{
    find_button, find_key, find_mode, find_verb, lower, lowered, named_key, named_mode,
    named_verb, numbered_button, Verb,
};
use crate::number::{parse_signed, parse_unsigned, signed_result, unsigned_result};
use crate::model::action_views;
use crate::text::{
    all_words, is_word, join, join_words, lemma_words_are_words, lemma_words_of_join, split,
    split_on, split_words, string_of, views, words,
};
use vstd::prelude::*;

verus! {

/// The fault of the given kind at the given text.
pub open spec fn fault(kind: FaultKind, field: Seq<char>) -> FaultView {
    FaultView { kind, field }
}

/// What `mousemove` and its arguments ask for: a mode, two coordinates, and
/// a duration in milliseconds, which is 0 where it is left out.
pub open spec fn move_result(words: Seq<Seq<char>>) -> Result<ActionView, FaultView> {
    if words.len() < 4 {
        Err(fault(FaultKind::TooFewArguments { verb: Verb::MouseMove, min: 3 }, seq![]))
    } else if words.len() > 5 {
        Err(fault(FaultKind::TooManyArguments { verb: Verb::MouseMove, max: 4 }, seq![]))
    } else {
        match named_mode(words[1]) {
            None => Err(fault(FaultKind::InvalidMode, words[1])),
            Some(mode) => match signed_result(words[2]) {
                Err(cause) => Err(fault(FaultKind::InvalidX { cause }, words[2])),
                Ok(x) => match signed_result(words[3]) {
                    Err(cause) => Err(fault(FaultKind::InvalidY { cause }, words[3])),
                    Ok(y) => if words.len() == 4 {
                        Ok(ActionView::PointerMove { x, y, duration: 0, mode })
                    } else {
                        match unsigned_result(words[4], u64::MAX) {
                            Err(cause) => Err(
                                fault(FaultKind::InvalidDuration { cause }, words[4]),
                            ),
                            Ok(duration) => Ok(ActionView::PointerMove { x, y, duration, mode }),
                        }
                    },
                },
            },
        }
    }
}

/// The fault of a verb that takes exactly one argument, where it has none
/// or several.
pub open spec fn single_argument_fault(verb: Verb, words: Seq<Seq<char>>) -> Option<FaultView> {
    if words.len() < 2 {
        Some(fault(FaultKind::TooFewArguments { verb, min: 1 }, seq![]))
    } else if words.len() > 2 {
        Some(fault(FaultKind::TooManyArguments { verb, max: 1 }, seq![]))
    } else {
        None
    }
}

/// The button that `word` numbers: 1 to 5 for left, right, middle, back and
/// forward, the last two only where the platform has them.
pub open spec fn button_result(verb: Verb, word: Seq<char>, platform: Platform) -> Result<
    Button,
    FaultView,
> {
    match unsigned_result(word, 255) {
        Err(cause) => Err(fault(FaultKind::InvalidButton { verb, cause }, word)),
        Ok(n) => match numbered_button(n) {
            Some(button) if platform.has_button(button) => Ok(button),
            _ => Err(fault(FaultKind::UnknownButton { verb }, word)),
        },
    }
}

/// The key that `word` names: a named key of the platform, whatever the case
/// of the letters, or else a single character that names a key, taken in
/// lower case.
pub open spec fn key_result(verb: Verb, word: Seq<char>, platform: Platform) -> Result<
    Key,
    FaultView,
> {
    let name = lower(word);
    match named_key(name) {
        Some(key) if platform.has_key(key) => Ok(key),
        _ => if name.len() == 1 && is_key_char(name[0]) {
            Ok(Key::Unicode(name[0]))
        } else {
            Err(fault(FaultKind::InvalidKey { verb }, word))
        },
    }
}

/// What the words of one action expression ask for. The first word is the
/// verb; no words ask for nothing, which is a fault.
pub open spec fn action_result(words: Seq<Seq<char>>, platform: Platform) -> Result<
    ActionView,
    FaultView,
> {
    if words.len() == 0 {
        Err(fault(FaultKind::NoActions, seq![]))
    } else {
        match named_verb(words[0]) {
            None => Err(fault(FaultKind::UnknownVerb, words[0])),
            Some(Verb::MouseMove) => move_result(words),
            Some(Verb::Text) => if words.len() < 2 {
                Err(fault(FaultKind::TooFewArguments { verb: Verb::Text, min: 1 }, seq![]))
            } else {
                Ok(ActionView::TypeText { text: join(words.skip(1)) })
            },
            Some(verb) => match single_argument_fault(verb, words) {
                Some(f) => Err(f),
                None => if verb == Verb::MouseDown || verb == Verb::MouseUp {
                    match button_result(verb, words[1], platform) {
                        Err(f) => Err(f),
                        Ok(button) => if verb == Verb::MouseDown {
                            Ok(ActionView::ButtonDown { button })
                        } else {
                            Ok(ActionView::ButtonUp { button })
                        },
                    }
                } else {
                    match key_result(verb, words[1], platform) {
                        Err(f) => Err(f),
                        Ok(key) => if verb == Verb::KeyDown {
                            Ok(ActionView::KeyDown { key })
                        } else {
                            Ok(ActionView::KeyUp { key })
                        },
                    }
                },
            },
        }
    }
}

/// What the action expressions `segments` ask for, in order: the blank ones
/// ask for nothing, and the first fault from the left is the fault of all.
pub open spec fn actions_result(segments: Seq<Seq<char>>, platform: Platform) -> Result<
    Seq<ActionView>,
    FaultView,
>
    decreases segments.len(),
{
    if segments.len() == 0 {
        Ok(seq![])
    } else {
        match actions_result(segments.drop_last(), platform) {
            Err(f) => Err(f),
            Ok(actions) => {
                let w = words(segments.last());
                if w.len() == 0 {
                    Ok(actions)
                } else {
                    match action_result(w, platform) {
                        Err(f) => Err(f),
                        Ok(action) => Ok(actions.push(action)),
                    }
                }
            },
        }
    }
}

/// What the part of a line behind the `>` asks for: its action expressions
/// stand between `;`, and there is at least one that is not blank.
pub open spec fn action_list_result(field: Seq<char>, platform: Platform) -> Result<
    Seq<ActionView>,
    FaultView,
> {
    match actions_result(split(field, ';'), platform) {
        Err(f) => Err(f),
        Ok(actions) => if actions.len() == 0 {
            Err(fault(FaultKind::NoActions, seq![]))
        } else {
            Ok(actions)
        },
    }
}

/// What words ask for is well formed, and within what the platform can do.
pub proof fn lemma_action_result_wf(words: Seq<Seq<char>>, platform: Platform)
    requires
        all_words(words),
    ensures
        action_result(words, platform) matches Ok(action) ==> action.wf() && action.supported(
            platform,
        ),
{
    if words.len() >= 2 && named_verb(words[0]) == Some(Verb::Text) {
        let rest = words.skip(1);
        assert(all_words(rest)) by {
            assert forall|i: int| 0 <= i < rest.len() implies is_word(#[trigger] rest[i]) by {
                assert(rest[i] == words[i + 1]);
            }
        }
        lemma_words_of_join(rest);
    }
}

/// What a list of action expressions asks for is well formed, and within
/// what the platform can do.
pub proof fn lemma_actions_result_wf(segments: Seq<Seq<char>>, platform: Platform)
    ensures
        actions_result(segments, platform) matches Ok(actions) ==> forall|i: int|
            0 <= i < actions.len() ==> (#[trigger] actions[i]).wf() && actions[i].supported(
                platform,
            ),
    decreases segments.len(),
{
    if segments.len() > 0 {
        lemma_actions_result_wf(segments.drop_last(), platform);
        lemma_words_are_words(segments.last());
        lemma_action_result_wf(words(segments.last()), platform);
    }
}

/// A fault of the given kind at the given word.
pub fn fault_at(kind: FaultKind, word: &[char]) -> (f: Fault)
    ensures
        f@ == fault(kind, word@),
{
    Fault { kind, field: string_of(word) }
}

/// A fault of the given kind at no text.
pub fn bare_fault(kind: FaultKind) -> (f: Fault)
    ensures
        f@ == fault(kind, seq![]),
{
    Fault { kind, field: String::new() }
}

/// Tests whether `c` names a key by itself.
pub fn key_char(c: char) -> (b: bool)
    ensures
        b == is_key_char(c),
{
    ('a' <= c && c <= 'z') || ('0' <= c && c <= '9') || c == '`' || c == '-' || c == '=' || c
        == '[' || c == ']' || c == '\\' || c == ';' || c == '\'' || c == ',' || c == '.' || c
        == '/'
}

fn parse_move(words: &[&[char]]) -> (r: Result<Action, Fault>)
    ensures
        crate::error::result_view(r) == move_result(views(words@)),
{
    if words.len() < 4 {
        return Err(bare_fault(FaultKind::TooFewArguments { verb: Verb::MouseMove, min: 3 }));
    }
    if words.len() > 5 {
        return Err(bare_fault(FaultKind::TooManyArguments { verb: Verb::MouseMove, max: 4 }));
    }
    let mode = match find_mode(words[1]) {
        None => {
            return Err(fault_at(FaultKind::InvalidMode, words[1]));
        },
        Some(mode) => mode,
    };
    let x = match parse_signed(words[2]) {
        Err(cause) => {
            return Err(fault_at(FaultKind::InvalidX { cause }, words[2]));
        },
        Ok(x) => x,
    };
    let y = match parse_signed(words[3]) {
        Err(cause) => {
            return Err(fault_at(FaultKind::InvalidY { cause }, words[3]));
        },
        Ok(y) => y,
    };
    let duration = if words.len() == 4 {
        0
    } else {
        match parse_unsigned(words[4], u64::MAX) {
            Err(cause) => {
                return Err(fault_at(FaultKind::InvalidDuration { cause }, words[4]));
            },
            Ok(duration) => duration,
        }
    };
    Ok(Action::PointerMove { x, y, duration, mode })
}

fn parse_button(verb: Verb, word: &[char], platform: Platform) -> (r: Result<Button, Fault>)
    ensures
        match r {
            Ok(button) => button_result(verb, word@, platform) == Ok::<Button, FaultView>(button),
            Err(f) => button_result(verb, word@, platform) == Err::<Button, FaultView>(f@),
        },
{
    match parse_unsigned(word, 255) {
        Err(cause) => Err(fault_at(FaultKind::InvalidButton { verb, cause }, word)),
        Ok(n) => match find_button(n) {
            Some(Button::Back) => if platform.side_buttons {
                Ok(Button::Back)
            } else {
                Err(fault_at(FaultKind::UnknownButton { verb }, word))
            },
            Some(Button::Forward) => if platform.side_buttons {
                Ok(Button::Forward)
            } else {
                Err(fault_at(FaultKind::UnknownButton { verb }, word))
            },
            Some(button) => Ok(button),
            None => Err(fault_at(FaultKind::UnknownButton { verb }, word)),
        },
    }
}

fn parse_key(verb: Verb, word: &[char], platform: Platform) -> (r: Result<Key, Fault>)
    ensures
        match r {
            Ok(key) => key_result(verb, word@, platform) == Ok::<Key, FaultView>(key),
            Err(f) => key_result(verb, word@, platform) == Err::<Key, FaultView>(f@),
        },
{
    let name = lowered(word);
    match find_key(name.as_slice()) {
        Some(Key::Insert) => if platform.insert_key {
            return Ok(Key::Insert);
        },
        Some(key) => {
            return Ok(key);
        },
        None => {},
    }
    if name.len() == 1 && key_char(name[0]) {
        Ok(Key::Unicode(name[0]))
    } else {
        Err(fault_at(FaultKind::InvalidKey { verb }, word))
    }
}

/// Reads the words of one action expression.
pub fn parse_action_words(words: &[&[char]], platform: Platform) -> (r: Result<Action, Fault>)
    ensures
        crate::error::result_view(r) == action_result(views(words@), platform),
{
    if words.len() == 0 {
        return Err(bare_fault(FaultKind::NoActions));
    }
    match find_verb(words[0]) {
        None => Err(fault_at(FaultKind::UnknownVerb, words[0])),
        Some(Verb::MouseMove) => parse_move(words),
        Some(Verb::Text) => {
            if words.len() < 2 {
                Err(bare_fault(FaultKind::TooFewArguments { verb: Verb::Text, min: 1 }))
            } else {
                let rest = vstd::slice::slice_subrange(words, 1, words.len());
                assert(views(rest@) =~= views(words@).skip(1));
                Ok(Action::TypeText { text: join_words(rest) })
            }
        },
        Some(verb) => {
            if words.len() < 2 {
                return Err(bare_fault(FaultKind::TooFewArguments { verb, min: 1 }));
            }
            if words.len() > 2 {
                return Err(bare_fault(FaultKind::TooManyArguments { verb, max: 1 }));
            }
            match verb {
                Verb::MouseDown => match parse_button(verb, words[1], platform) {
                    Err(f) => Err(f),
                    Ok(button) => Ok(Action::ButtonDown { button }),
                },
                Verb::MouseUp => match parse_button(verb, words[1], platform) {
                    Err(f) => Err(f),
                    Ok(button) => Ok(Action::ButtonUp { button }),
                },
                Verb::KeyDown => match parse_key(verb, words[1], platform) {
                    Err(f) => Err(f),
                    Ok(key) => Ok(Action::KeyDown { key }),
                },
                _ => match parse_key(verb, words[1], platform) {
                    Err(f) => Err(f),
                    Ok(key) => Ok(Action::KeyUp { key }),
                },
            }
        },
    }
}

/// Reads one action expression, such as `mousemove abs 10 20 500`.
pub fn parse_action(expression: &[char], platform: Platform) -> (r: Result<Action, Fault>)
    ensures
        crate::error::result_view(r) == action_result(words(expression@), platform),
        r matches Ok(action) ==> action@.wf() && action@.supported(platform),
{
    proof {
        lemma_words_are_words(expression@);
        lemma_action_result_wf(words(expression@), platform);
    }
    let w = split_words(expression);
    parse_action_words(w.as_slice(), platform)
}

/// A fault among the first action expressions is the fault of them all.
pub proof fn lemma_fault_stays(segments: Seq<Seq<char>>, platform: Platform, k: int)
    requires
        0 <= k <= segments.len(),
        actions_result(segments.take(k), platform) is Err,
    ensures
        actions_result(segments, platform) == actions_result(segments.take(k), platform),
    decreases segments.len() - k,
{
    if k < segments.len() {
        assert(segments.take(k + 1).drop_last() =~= segments.take(k));
        lemma_fault_stays(segments, platform, k + 1);
    } else {
        assert(segments.take(k) =~= segments);
    }
}

/// The views of a list of actions, or the view of the fault in its place.
pub open spec fn list_view(r: Result<Vec<Action>, Fault>) -> Result<Seq<ActionView>, FaultView> {
    match r {
        Ok(actions) => Ok(action_views(actions@)),
        Err(f) => Err(f@),
    }
}

/// Reads the part of a line behind the `>`: action expressions with `;`
/// between them.
pub fn parse_actions_string(field: &[char], platform: Platform) -> (r: Result<Vec<Action>, Fault>)
    ensures
        list_view(r) == action_list_result(field@, platform),
        r matches Ok(actions) ==> actions.len() > 0 && forall|i: int|
            0 <= i < actions.len() ==> (#[trigger] actions[i])@.wf() && actions[i]@.supported(
                platform,
            ),
{
    proof {
        lemma_actions_result_wf(split(field@, ';'), platform);
    }
    let segments = split_on(field, ';');
    let ghost all = views(segments@);
    let mut actions: Vec<Action> = Vec::new();
    let mut i: usize = 0;
    assert(all.take(0) =~= Seq::<Seq<char>>::empty());
    assert(action_views(actions@) =~= Seq::<ActionView>::empty());
    while i < segments.len()
        invariant
            i <= segments.len(),
            all == views(segments@),
            all == split(field@, ';'),
            actions_result(all.take(i as int), platform) == Ok::<Seq<ActionView>, FaultView>(
                action_views(actions@),
            ),
        decreases segments.len() - i,
    {
        let ghost before = action_views(actions@);
        assert(all.take(i + 1).drop_last() =~= all.take(i as int));
        assert(all.take(i + 1).last() == segments@[i as int]@);
        let w = split_words(segments[i]);
        if w.len() > 0 {
            match parse_action_words(w.as_slice(), platform) {
                Err(f) => {
                    proof {
                        assert(actions_result(all.take(i + 1), platform) == Err::<
                            Seq<ActionView>,
                            FaultView,
                        >(f@));
                        lemma_fault_stays(all, platform, i + 1);
                    }
                    return Err(f);
                },
                Ok(action) => {
                    actions.push(action);
                    assert(action_views(actions@) =~= before.push(action@));
                },
            }
        }
        i += 1;
    }
    assert(all.take(i as int) =~= all);
    if actions.len() == 0 {
        Err(bare_fault(FaultKind::NoActions))
    } else {
        assert forall|k: int| 0 <= k < actions.len() implies (#[trigger] actions[k])@.wf()
            && actions[k]@.supported(platform) by {
            assert(action_views(actions@)[k] == actions[k]@);
        }
        Ok(actions)
    }
}

} // verus!
