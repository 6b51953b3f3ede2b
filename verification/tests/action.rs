use tatata::action::{parse_action, parse_actions_string};
use tatata::error::{Fault, FaultKind};
use tatata::model::{Action, Button, Key, MoveMode, Platform};
use tatata::names::Verb;
use tatata::number::NumberError;

fn full() -> Platform {
    Platform { side_buttons: true, insert_key: true }
}

fn bare() -> Platform {
    Platform { side_buttons: false, insert_key: false }
}

fn read(expression: &str) -> Result<Action, Fault> {
    let chars: Vec<char> = expression.chars().collect();
    parse_action(&chars, full())
}

fn read_on(expression: &str, platform: Platform) -> Result<Action, Fault> {
    let chars: Vec<char> = expression.chars().collect();
    parse_action(&chars, platform)
}

fn fault(kind: FaultKind, field: &str) -> Result<Action, Fault> {
    Err(Fault { kind, field: String::from(field) })
}

fn glide(x: i32, y: i32, duration: u64, mode: MoveMode) -> Result<Action, Fault> {
    Ok(Action::PointerMove { x, y, duration, mode })
}

#[test]
fn move_with_and_without_duration() {
    assert_eq!(read("mousemove abs 100 100 500"), glide(100, 100, 500, MoveMode::Absolute));
    assert_eq!(read("mousemove abs 50 60"), glide(50, 60, 0, MoveMode::Absolute));
    assert_eq!(read("mousemove rel -7 +8 1"), glide(-7, 8, 1, MoveMode::Relative));
}

#[test]
fn move_coordinates_cover_the_range() {
    assert_eq!(
        read("mousemove abs -2147483648 2147483647 18446744073709551615"),
        glide(i32::MIN, i32::MAX, u64::MAX, MoveMode::Absolute)
    );
    assert_eq!(read("mousemove abs -0 007 +9"), glide(0, 7, 9, MoveMode::Absolute));
}

#[test]
fn move_argument_count() {
    assert_eq!(
        read("mousemove abs 1"),
        fault(FaultKind::TooFewArguments { verb: Verb::MouseMove, min: 3 }, "")
    );
    assert_eq!(
        read("mousemove"),
        fault(FaultKind::TooFewArguments { verb: Verb::MouseMove, min: 3 }, "")
    );
    assert_eq!(
        read("mousemove abs 1 2 3 4"),
        fault(FaultKind::TooManyArguments { verb: Verb::MouseMove, max: 4 }, "")
    );
}

#[test]
fn move_mode_must_be_known() {
    assert_eq!(read("mousemove to 1 2"), fault(FaultKind::InvalidMode, "to"));
    assert_eq!(read("mousemove ABS 1 2"), fault(FaultKind::InvalidMode, "ABS"));
}

#[test]
fn move_numbers_must_be_numbers() {
    assert_eq!(
        read("mousemove abs x 2"),
        fault(FaultKind::InvalidX { cause: NumberError::InvalidDigit }, "x")
    );
    assert_eq!(
        read("mousemove abs 2147483648 2"),
        fault(FaultKind::InvalidX { cause: NumberError::PosOverflow }, "2147483648")
    );
    assert_eq!(
        read("mousemove abs 1 -2147483649"),
        fault(FaultKind::InvalidY { cause: NumberError::NegOverflow }, "-2147483649")
    );
    assert_eq!(
        read("mousemove abs 1 -"),
        fault(FaultKind::InvalidY { cause: NumberError::InvalidDigit }, "-")
    );
    assert_eq!(
        read("mousemove abs 1 2 -3"),
        fault(FaultKind::InvalidDuration { cause: NumberError::InvalidDigit }, "-3")
    );
    assert_eq!(
        read("mousemove abs 1 2 18446744073709551616"),
        fault(FaultKind::InvalidDuration { cause: NumberError::PosOverflow }, "18446744073709551616")
    );
}

#[test]
fn first_faulty_argument_is_reported() {
    assert_eq!(read("mousemove to x y z"), fault(FaultKind::InvalidMode, "to"));
    assert_eq!(
        read("mousemove abs x y z"),
        fault(FaultKind::InvalidX { cause: NumberError::InvalidDigit }, "x")
    );
}

#[test]
fn buttons_by_number() {
    assert_eq!(read("mousedown 1"), Ok(Action::ButtonDown { button: Button::Left }));
    assert_eq!(read("mousedown 2"), Ok(Action::ButtonDown { button: Button::Right }));
    assert_eq!(read("mouseup 3"), Ok(Action::ButtonUp { button: Button::Middle }));
    assert_eq!(read("mouseup 4"), Ok(Action::ButtonUp { button: Button::Back }));
    assert_eq!(read("mousedown 5"), Ok(Action::ButtonDown { button: Button::Forward }));
    assert_eq!(read("mousedown +1"), Ok(Action::ButtonDown { button: Button::Left }));
    assert_eq!(read("mousedown 001"), Ok(Action::ButtonDown { button: Button::Left }));
}

#[test]
fn side_buttons_need_the_platform() {
    assert_eq!(
        read_on("mousedown 4", bare()),
        fault(FaultKind::UnknownButton { verb: Verb::MouseDown }, "4")
    );
    assert_eq!(
        read_on("mouseup 5", bare()),
        fault(FaultKind::UnknownButton { verb: Verb::MouseUp }, "5")
    );
    assert_eq!(read_on("mouseup 3", bare()), Ok(Action::ButtonUp { button: Button::Middle }));
}

#[test]
fn button_faults() {
    assert_eq!(read("mousedown 0"), fault(FaultKind::UnknownButton { verb: Verb::MouseDown }, "0"));
    assert_eq!(read("mouseup 6"), fault(FaultKind::UnknownButton { verb: Verb::MouseUp }, "6"));
    assert_eq!(read("mouseup 255"), fault(FaultKind::UnknownButton { verb: Verb::MouseUp }, "255"));
    assert_eq!(
        read("mousedown 256"),
        fault(
            FaultKind::InvalidButton { verb: Verb::MouseDown, cause: NumberError::PosOverflow },
            "256"
        )
    );
    assert_eq!(
        read("mouseup left"),
        fault(
            FaultKind::InvalidButton { verb: Verb::MouseUp, cause: NumberError::InvalidDigit },
            "left"
        )
    );
    assert_eq!(
        read("mousedown"),
        fault(FaultKind::TooFewArguments { verb: Verb::MouseDown, min: 1 }, "")
    );
    assert_eq!(
        read("mouseup 1 2"),
        fault(FaultKind::TooManyArguments { verb: Verb::MouseUp, max: 1 }, "")
    );
}

#[test]
fn named_keys() {
    let table = [
        ("alt", Key::Alt),
        ("backspace", Key::Backspace),
        ("capslock", Key::CapsLock),
        ("control", Key::Control),
        ("delete", Key::Delete),
        ("down", Key::DownArrow),
        ("end", Key::End),
        ("enter", Key::Return),
        ("escape", Key::Escape),
        ("f1", Key::F1),
        ("f2", Key::F2),
        ("f3", Key::F3),
        ("f4", Key::F4),
        ("f5", Key::F5),
        ("f6", Key::F6),
        ("f7", Key::F7),
        ("f8", Key::F8),
        ("f9", Key::F9),
        ("f10", Key::F10),
        ("f11", Key::F11),
        ("f12", Key::F12),
        ("f13", Key::F13),
        ("f14", Key::F14),
        ("f15", Key::F15),
        ("f16", Key::F16),
        ("f17", Key::F17),
        ("f18", Key::F18),
        ("f19", Key::F19),
        ("f20", Key::F20),
        ("home", Key::Home),
        ("insert", Key::Insert),
        ("left", Key::LeftArrow),
        ("pagedown", Key::PageDown),
        ("pageup", Key::PageUp),
        ("right", Key::RightArrow),
        ("shift", Key::Shift),
        ("space", Key::Space),
        ("super", Key::Meta),
        ("tab", Key::Tab),
        ("up", Key::UpArrow),
    ];
    for (name, key) in table {
        assert_eq!(read(&format!("keydown {name}")), Ok(Action::KeyDown { key }));
        assert_eq!(read(&format!("keyup {name}")), Ok(Action::KeyUp { key }));
    }
}

#[test]
fn key_names_in_any_case() {
    assert_eq!(read("keydown ENTER"), Ok(Action::KeyDown { key: Key::Return }));
    assert_eq!(read("keyup PageUp"), Ok(Action::KeyUp { key: Key::PageUp }));
    assert_eq!(read("keydown F12"), Ok(Action::KeyDown { key: Key::F12 }));
}

#[test]
fn character_keys() {
    for c in "abcxyz0189`-=[]\\;',./".chars() {
        assert_eq!(read(&format!("keydown {c}")), Ok(Action::KeyDown { key: Key::Unicode(c) }));
    }
    assert_eq!(read("keydown A"), Ok(Action::KeyDown { key: Key::Unicode('a') }));
    assert_eq!(read("keyup Z"), Ok(Action::KeyUp { key: Key::Unicode('z') }));
}

#[test]
fn key_faults() {
    assert_eq!(read("keydown ab"), fault(FaultKind::InvalidKey { verb: Verb::KeyDown }, "ab"));
    assert_eq!(read("keyup !"), fault(FaultKind::InvalidKey { verb: Verb::KeyUp }, "!"));
    assert_eq!(read("keyup f21"), fault(FaultKind::InvalidKey { verb: Verb::KeyUp }, "f21"));
    assert_eq!(read("keyup f0"), fault(FaultKind::InvalidKey { verb: Verb::KeyUp }, "f0"));
    assert_eq!(
        read("keydown \u{e9}"),
        fault(FaultKind::InvalidKey { verb: Verb::KeyDown }, "\u{e9}")
    );
    assert_eq!(
        read("keydown \u{212a}"),
        fault(FaultKind::InvalidKey { verb: Verb::KeyDown }, "\u{212a}")
    );
    assert_eq!(
        read("keydown"),
        fault(FaultKind::TooFewArguments { verb: Verb::KeyDown, min: 1 }, "")
    );
    assert_eq!(
        read("keyup a b"),
        fault(FaultKind::TooManyArguments { verb: Verb::KeyUp, max: 1 }, "")
    );
}

#[test]
fn insert_needs_the_platform() {
    assert_eq!(read_on("keydown insert", full()), Ok(Action::KeyDown { key: Key::Insert }));
    assert_eq!(
        read_on("keydown Insert", bare()),
        fault(FaultKind::InvalidKey { verb: Verb::KeyDown }, "Insert")
    );
    assert_eq!(read_on("keydown home", bare()), Ok(Action::KeyDown { key: Key::Home }));
}

#[test]
fn text_is_joined_with_single_spaces() {
    assert_eq!(read("text hello world"), Ok(Action::TypeText { text: String::from("hello world") }));
    assert_eq!(
        read("  text \t hello \u{2003}  big   world  "),
        Ok(Action::TypeText { text: String::from("hello big world") })
    );
    assert_eq!(read("text 42"), Ok(Action::TypeText { text: String::from("42") }));
    assert_eq!(
        read("text Gr\u{fc}\u{df}e mousedown 1"),
        Ok(Action::TypeText { text: String::from("Gr\u{fc}\u{df}e mousedown 1") })
    );
}

#[test]
fn text_needs_a_word() {
    assert_eq!(read("text"), fault(FaultKind::TooFewArguments { verb: Verb::Text, min: 1 }, ""));
    assert_eq!(read("text   "), fault(FaultKind::TooFewArguments { verb: Verb::Text, min: 1 }, ""));
}

#[test]
fn verbs_are_in_lower_case() {
    assert_eq!(read("click 1"), fault(FaultKind::UnknownVerb, "click"));
    assert_eq!(read("MouseDown 1"), fault(FaultKind::UnknownVerb, "MouseDown"));
    assert_eq!(read("texts a"), fault(FaultKind::UnknownVerb, "texts"));
}

#[test]
fn blank_expression_asks_for_nothing() {
    assert_eq!(read(""), fault(FaultKind::NoActions, ""));
    assert_eq!(read(" \t "), fault(FaultKind::NoActions, ""));
}

#[test]
fn action_list_in_order() {
    let field: Vec<char> = " keydown shift ; text Hi there;keyup shift ;".chars().collect();
    assert_eq!(
        parse_actions_string(&field, full()),
        Ok(vec![
            Action::KeyDown { key: Key::Shift },
            Action::TypeText { text: String::from("Hi there") },
            Action::KeyUp { key: Key::Shift }
        ])
    );
}

#[test]
fn action_list_stops_at_the_first_fault() {
    let field: Vec<char> = "mousedown 1; mousedown 9; dance".chars().collect();
    assert_eq!(
        parse_actions_string(&field, full()),
        Err(Fault {
            kind: FaultKind::UnknownButton { verb: Verb::MouseDown },
            field: String::from("9")
        })
    );
}

#[test]
fn action_list_must_not_be_empty() {
    for text in ["", "  ", ";", " ; ; "] {
        let field: Vec<char> = text.chars().collect();
        assert_eq!(
            parse_actions_string(&field, full()),
            Err(Fault { kind: FaultKind::NoActions, field: String::new() })
        );
    }
}
