use tatata::action::parse_action;
use tatata::glide::{moved_by, offset_of, remaining_wait, step_along, Glide, Wait};
use tatata::model::{Action, Button, InstructionGroup, Key, MoveMode, Platform};
use tatata::log::{log_line, log_line_with, push_description, quote_part};
use tatata::render::render_action;
use tatata::schedule::{
    effect_of, execute_action, execute_group, plan_run, RunMode, SinkCall, Step, GLIDE_THRESHOLD,
};
use tatata::script::parse_script;
use tatata::text::chars_of;

fn full() -> Platform {
    Platform { side_buttons: true, insert_key: true }
}

fn play() -> RunMode {
    RunMode::from_flags(false, false)
}

fn text(s: &str) -> Action {
    Action::TypeText { text: String::from(s) }
}

fn sample_actions() -> Vec<Action> {
    vec![
        Action::PointerMove { x: 50, y: -60, duration: 0, mode: MoveMode::Absolute },
        Action::PointerMove { x: i32::MIN, y: i32::MAX, duration: u64::MAX, mode: MoveMode::Relative },
        Action::ButtonDown { button: Button::Left },
        Action::ButtonUp { button: Button::Forward },
        Action::ButtonDown { button: Button::Back },
        Action::KeyDown { key: Key::Return },
        Action::KeyUp { key: Key::F20 },
        Action::KeyDown { key: Key::Insert },
        Action::KeyDown { key: Key::Meta },
        Action::KeyUp { key: Key::Unicode('a') },
        Action::KeyUp { key: Key::Unicode('\\') },
        Action::KeyDown { key: Key::Unicode(';') },
        text("hello world"),
        text("x"),
        text("text mousedown 1"),
        text("Gr\u{fc}\u{df}e \u{1f600}"),
    ]
}

#[test]
fn actions_as_expressions() {
    let written: Vec<String> = sample_actions().iter().map(render_action).collect();
    assert_eq!(
        written,
        vec![
            "mousemove abs 50 -60 0",
            "mousemove rel -2147483648 2147483647 18446744073709551615",
            "mousedown 1",
            "mouseup 5",
            "mousedown 4",
            "keydown enter",
            "keyup f20",
            "keydown insert",
            "keydown super",
            "keyup a",
            "keyup \\",
            "keydown ;",
            "text hello world",
            "text x",
            "text text mousedown 1",
            "text Gr\u{fc}\u{df}e \u{1f600}",
        ]
    );
}

#[test]
fn every_key_and_button_is_written_as_it_is_read() {
    let names = [
        "alt", "backspace", "capslock", "control", "delete", "down", "end", "enter", "escape",
        "f1", "f2", "f3", "f4", "f5", "f6", "f7", "f8", "f9", "f10", "f11", "f12", "f13", "f14",
        "f15", "f16", "f17", "f18", "f19", "f20", "home", "insert", "left", "pagedown", "pageup",
        "right", "shift", "space", "super", "tab", "up", "q", "7", "/",
    ];
    for name in names {
        let expression = format!("keydown {name}");
        let action = parse_action(&chars_of(&expression), full()).unwrap();
        assert_eq!(render_action(&action), expression);
    }
    for n in 1..=5 {
        let expression = format!("mouseup {n}");
        let action = parse_action(&chars_of(&expression), full()).unwrap();
        assert_eq!(render_action(&action), expression);
    }
}

#[test]
fn written_actions_read_back() {
    for action in sample_actions() {
        let written = render_action(&action);
        assert_eq!(parse_action(&chars_of(&written), full()), Ok(action));
    }
}

#[test]
fn writing_does_not_depend_on_the_layout_of_the_script() {
    let a = parse_action(&chars_of("mousemove abs 50 50"), full()).unwrap();
    let b = parse_action(&chars_of("  mousemove\tabs   +50  050   0 "), full()).unwrap();
    assert_eq!(render_action(&a), "mousemove abs 50 50 0");
    assert_eq!(render_action(&b), "mousemove abs 50 50 0");
    let c = parse_action(&chars_of("text   hello \t world"), full()).unwrap();
    assert_eq!(render_action(&c), "text hello world");
    let d = parse_action(&chars_of("keydown ESCAPE"), full()).unwrap();
    assert_eq!(render_action(&d), "keydown escape");
}

#[test]
fn log_lines() {
    assert_eq!(
        log_line(
            0,
            &Action::PointerMove { x: 100, y: 100, duration: 500, mode: MoveMode::Absolute }
        ),
        "At 0ms: Move mouse to 100, 100 over 500ms (absolute)"
    );
    assert_eq!(
        log_line(
            u64::MAX,
            &Action::PointerMove { x: -1, y: 2, duration: 0, mode: MoveMode::Relative }
        ),
        "At 18446744073709551615ms: Move mouse by -1, 2 over 0ms (relative)"
    );
    assert_eq!(log_line(0, &Action::ButtonDown { button: Button::Left }), "At 0ms: Press mouse Left");
    assert_eq!(
        log_line(7, &Action::ButtonUp { button: Button::Forward }),
        "At 7ms: Release mouse Forward"
    );
    assert_eq!(log_line(7, &Action::KeyDown { key: Key::Return }), "At 7ms: Press key Return");
    assert_eq!(log_line(7, &Action::KeyUp { key: Key::Meta }), "At 7ms: Release key Meta");
    assert_eq!(
        log_line(10, &Action::KeyDown { key: Key::Unicode('a') }),
        "At 10ms: Press key Unicode('a')"
    );
    assert_eq!(
        log_line(10, &Action::KeyUp { key: Key::Unicode('\'') }),
        "At 10ms: Release key Unicode('\\'')"
    );
    assert_eq!(
        log_line(10, &Action::KeyUp { key: Key::Unicode('\\') }),
        "At 10ms: Release key Unicode('\\\\')"
    );
    assert_eq!(log_line(150, &text("hello world")), "At 150ms: Input text \"hello world\"");
    assert_eq!(
        log_line(150, &text("say \"hi\" \\ \u{e9}")),
        "At 150ms: Input text \"say \\\"hi\\\" \\\\ \u{e9}\""
    );
}

#[test]
fn log_names_are_the_names_of_the_variants() {
    let buttons = [Button::Left, Button::Right, Button::Middle, Button::Back, Button::Forward];
    for button in buttons {
        assert_eq!(
            log_line(1, &Action::ButtonDown { button }),
            format!("At 1ms: Press mouse {button:?}")
        );
    }
    let keys = [
        Key::Alt, Key::Backspace, Key::CapsLock, Key::Control, Key::Delete, Key::DownArrow,
        Key::End, Key::Return, Key::Escape, Key::F1, Key::F2, Key::F3, Key::F4, Key::F5, Key::F6,
        Key::F7, Key::F8, Key::F9, Key::F10, Key::F11, Key::F12, Key::F13, Key::F14, Key::F15,
        Key::F16, Key::F17, Key::F18, Key::F19, Key::F20, Key::Home, Key::Insert, Key::LeftArrow,
        Key::PageDown, Key::PageUp, Key::RightArrow, Key::Shift, Key::Space, Key::Meta, Key::Tab,
        Key::UpArrow, Key::Unicode('q'), Key::Unicode('\''), Key::Unicode('\n'),
        Key::Unicode('\u{e9}'),
    ];
    for key in keys {
        assert_eq!(log_line(2, &Action::KeyUp { key }), format!("At 2ms: Release key {key:?}"));
    }
}

#[test]
fn log_line_around_a_quoted_part() {
    assert_eq!(log_line_with(3, &text("ignored"), "<q>"), "At 3ms: Input text <q>");
    assert_eq!(
        log_line_with(3, &Action::KeyDown { key: Key::Unicode('z') }, "<q>"),
        "At 3ms: Press key Unicode(<q>)"
    );
    assert_eq!(log_line_with(3, &Action::KeyDown { key: Key::Tab }, "<q>"), "At 3ms: Press key Tab");
    assert_eq!(
        log_line_with(3, &Action::ButtonUp { button: Button::Back }, "<q>"),
        "At 3ms: Release mouse Back"
    );
    let mut out = String::from("> ");
    push_description(
        &mut out,
        &Action::PointerMove { x: i32::MIN, y: i32::MAX, duration: 9, mode: MoveMode::Relative },
        "",
    );
    assert_eq!(out, "> Move mouse by -2147483648, 2147483647 over 9ms (relative)");
}

#[test]
fn quoted_parts() {
    assert_eq!(quote_part(&text("a b")), "\"a b\"");
    assert_eq!(quote_part(&text("tab\there")), "\"tab\\there\"");
    assert_eq!(quote_part(&Action::KeyDown { key: Key::Unicode('a') }), "'a'");
    assert_eq!(quote_part(&Action::KeyUp { key: Key::Unicode('"') }), "'\"'");
    assert_eq!(quote_part(&Action::KeyUp { key: Key::Shift }), "");
    assert_eq!(quote_part(&Action::ButtonDown { button: Button::Left }), "");
    assert_eq!(
        quote_part(&Action::PointerMove { x: 1, y: 2, duration: 3, mode: MoveMode::Absolute }),
        ""
    );
}

#[test]
fn mode_of_a_run() {
    assert_eq!(RunMode::from_flags(false, false), RunMode { execute: true, log: false });
    assert_eq!(RunMode::from_flags(false, true), RunMode { execute: true, log: true });
    assert_eq!(RunMode::from_flags(true, false), RunMode { execute: false, log: true });
    assert_eq!(RunMode::from_flags(true, true), RunMode { execute: false, log: true });
}

#[test]
fn effects_of_actions() {
    assert_eq!(
        effect_of(4, &Action::ButtonDown { button: Button::Middle }),
        Step::Send { time: 4, call: SinkCall::Button { button: Button::Middle, pressed: true } }
    );
    assert_eq!(
        effect_of(4, &Action::ButtonUp { button: Button::Middle }),
        Step::Send { time: 4, call: SinkCall::Button { button: Button::Middle, pressed: false } }
    );
    assert_eq!(
        effect_of(4, &Action::KeyDown { key: Key::Tab }),
        Step::Send { time: 4, call: SinkCall::Key { key: Key::Tab, pressed: true } }
    );
    assert_eq!(
        effect_of(4, &Action::KeyUp { key: Key::Unicode('q') }),
        Step::Send { time: 4, call: SinkCall::Key { key: Key::Unicode('q'), pressed: false } }
    );
    assert_eq!(
        effect_of(4, &text("hi there")),
        Step::Send { time: 4, call: SinkCall::Text { text: String::from("hi there") } }
    );
}

#[test]
fn short_moves_are_made_at_once() {
    assert_eq!(GLIDE_THRESHOLD, 2);
    for duration in [0, 1] {
        assert_eq!(
            effect_of(4, &Action::PointerMove { x: 3, y: 4, duration, mode: MoveMode::Relative }),
            Step::Send { time: 4, call: SinkCall::MovePointer { x: 3, y: 4, mode: MoveMode::Relative } }
        );
    }
    for duration in [2, 3, 500, u64::MAX] {
        assert_eq!(
            effect_of(4, &Action::PointerMove { x: 3, y: 4, duration, mode: MoveMode::Absolute }),
            Step::Spawn { time: 4, glide: Glide { x: 3, y: 4, duration, mode: MoveMode::Absolute } }
        );
    }
}

fn press(time: u64, button: Button, pressed: bool) -> Step {
    Step::Send { time, call: SinkCall::Button { button, pressed } }
}

fn strike(time: u64, key: Key, pressed: bool) -> Step {
    Step::Send { time, call: SinkCall::Key { key, pressed } }
}

fn log(line: &str) -> Step {
    Step::Log { line: String::from(line) }
}

#[test]
fn press_and_release_run_without_a_wait() {
    let groups = parse_script("0 > mousedown 1; mouseup 1", full()).unwrap();
    assert_eq!(
        plan_run(&groups, play()),
        vec![press(0, Button::Left, true), press(0, Button::Left, false), Step::Join]
    );
}

#[test]
fn long_move_becomes_a_task() {
    let groups = parse_script("20 > mousemove abs 100 100 500; mousedown 1", full()).unwrap();
    assert_eq!(
        plan_run(&groups, play()),
        vec![
            Step::WaitUntil { time: 20 },
            Step::Spawn {
                time: 20,
                glide: Glide { x: 100, y: 100, duration: 500, mode: MoveMode::Absolute }
            },
            press(20, Button::Left, true),
            Step::Join
        ]
    );
}

#[test]
fn run_keeps_the_order_of_the_script() {
    let groups =
        parse_script("0 > keydown a\n+5 > text b c; keyup a\n+0 > mousedown 2", full()).unwrap();
    assert_eq!(
        plan_run(&groups, RunMode::from_flags(false, true)),
        vec![
            log("At 0ms: Press key Unicode('a')"),
            strike(0, Key::Unicode('a'), true),
            Step::WaitUntil { time: 5 },
            log("At 5ms: Input text \"b c\""),
            Step::Send { time: 5, call: SinkCall::Text { text: String::from("b c") } },
            log("At 5ms: Release key Unicode('a')"),
            strike(5, Key::Unicode('a'), false),
            Step::WaitUntil { time: 5 },
            log("At 5ms: Press mouse Right"),
            press(5, Button::Right, true),
            Step::Join,
        ]
    );
}

#[test]
fn dry_run_logs_the_move_and_sends_nothing() {
    let groups = parse_script("0 > mousemove abs 100 100 500", full()).unwrap();
    assert_eq!(
        plan_run(&groups, RunMode::from_flags(true, false)),
        vec![log("At 0ms: Move mouse to 100, 100 over 500ms (absolute)"), Step::Join]
    );
}

#[test]
fn dry_run_sends_nothing() {
    let script = "0 > mousedown 1; mousemove abs 9 9 400\n30 > text a; keyup shift; mousemove rel 1 1";
    let groups = parse_script(script, full()).unwrap();
    for verbose in [false, true] {
        let steps = plan_run(&groups, RunMode::from_flags(true, verbose));
        assert_eq!(
            steps,
            vec![
                log("At 0ms: Press mouse Left"),
                log("At 0ms: Move mouse to 9, 9 over 400ms (absolute)"),
                Step::WaitUntil { time: 30 },
                log("At 30ms: Input text \"a\""),
                log("At 30ms: Release key Shift"),
                log("At 30ms: Move mouse by 1, 1 over 0ms (relative)"),
                Step::Join,
            ]
        );
        assert!(!steps.iter().any(|s| matches!(s, Step::Send { .. } | Step::Spawn { .. })));
    }
}

#[test]
fn run_of_nothing_only_joins() {
    assert_eq!(plan_run(&[], play()), vec![Step::Join]);
    assert_eq!(plan_run(&[], RunMode::from_flags(true, true)), vec![Step::Join]);
}

#[test]
fn run_ends_with_the_join() {
    let script = "0 > mousemove abs 9 9 400\n30 > mousemove rel 1 1 40; text a";
    let groups = parse_script(script, full()).unwrap();
    let steps = plan_run(&groups, play());
    assert_eq!(steps.last(), Some(&Step::Join));
    assert_eq!(steps.iter().filter(|s| **s == Step::Join).count(), 1);
    assert_eq!(steps.iter().filter(|s| matches!(s, Step::Spawn { .. })).count(), 2);
}

#[test]
fn steps_are_appended() {
    let mut steps = vec![Step::WaitUntil { time: 1 }];
    execute_action(&mut steps, 7, &text("x"), RunMode { execute: false, log: false });
    assert_eq!(steps, vec![Step::WaitUntil { time: 1 }]);
    execute_action(&mut steps, 7, &text("x"), RunMode { execute: true, log: true });
    assert_eq!(
        steps,
        vec![
            Step::WaitUntil { time: 1 },
            log("At 7ms: Input text \"x\""),
            Step::Send { time: 7, call: SinkCall::Text { text: String::from("x") } }
        ]
    );
    let group = InstructionGroup { time: 9, actions: vec![Action::KeyDown { key: Key::Alt }] };
    execute_group(&mut steps, &group, play());
    assert_eq!(steps.len(), 5);
    assert_eq!(steps[3], Step::WaitUntil { time: 9 });
    assert_eq!(steps[4], strike(9, Key::Alt, true));
}

#[test]
fn glide_over_five_hundred_steps() {
    let glide = Glide { x: 100, y: 100, duration: 500, mode: MoveMode::Absolute };
    let start = (0, 0);
    assert_eq!(glide.position_at(start, 0), Some((0, 0)));
    assert_eq!(glide.position_at(start, 1), Some((0, 0)));
    assert_eq!(glide.position_at(start, 5), Some((1, 1)));
    assert_eq!(glide.position_at(start, 250), Some((50, 50)));
    assert_eq!(glide.position_at(start, 499), Some((99, 99)));
    assert_eq!(glide.position_at(start, 500), None);
    assert_eq!(glide.position_at(start, u64::MAX), None);
    let mut tick = 0;
    let mut last = start;
    while let Some(at) = glide.position_at(start, tick) {
        assert_eq!(at.0, (100 * tick / 500) as i32);
        assert_eq!(at.1, at.0);
        assert!(last.0 <= at.0 && at.0 - last.0 <= 1);
        last = at;
        tick += 1;
    }
    assert_eq!(tick, 500);
}

#[test]
fn glide_from_where_the_pointer_is() {
    let glide = Glide { x: 100, y: -100, duration: 10, mode: MoveMode::Absolute };
    assert_eq!(glide.position_at((40, 20), 0), Some((40, 20)));
    assert_eq!(glide.position_at((40, 20), 5), Some((70, -40)));
    assert_eq!(glide.position_at((40, 20), 9), Some((94, -88)));
    let back = Glide { x: -3, y: 0, duration: 4, mode: MoveMode::Absolute };
    assert_eq!(back.position_at((4, 7), 1), Some((3, 6)));
    assert_eq!(back.position_at((4, 7), 2), Some((1, 4)));
    assert_eq!(back.position_at((4, 7), 3), Some((-1, 2)));
}

#[test]
fn glide_by_a_displacement() {
    let glide = Glide { x: 10, y: -10, duration: 4, mode: MoveMode::Relative };
    assert_eq!(glide.position_at((100, 100), 0), Some((100, 100)));
    assert_eq!(glide.position_at((100, 100), 1), Some((102, 98)));
    assert_eq!(glide.position_at((100, 100), 2), Some((105, 95)));
    assert_eq!(glide.position_at((100, 100), 3), Some((107, 93)));
    assert_eq!(glide.position_at((100, 100), 4), None);
}

#[test]
fn glide_over_the_whole_range() {
    let glide = Glide { x: i32::MAX, y: i32::MIN, duration: 2, mode: MoveMode::Absolute };
    assert_eq!(glide.position_at((i32::MIN, i32::MAX), 0), Some((i32::MIN, i32::MAX)));
    assert_eq!(glide.position_at((i32::MIN, i32::MAX), 1), Some((-1, 0)));
    let long = Glide { x: 1000, y: 0, duration: u64::MAX, mode: MoveMode::Absolute };
    assert_eq!(long.position_at((0, 0), u64::MAX - 1), Some((999, 0)));
    assert_eq!(long.position_at((0, 0), u64::MAX / 2), Some((499, 0)));
}

#[test]
fn glide_stops_at_the_edge_of_the_coordinates() {
    let glide = Glide { x: i32::MAX, y: i32::MIN, duration: 2, mode: MoveMode::Relative };
    assert_eq!(glide.position_at((i32::MAX, i32::MIN), 0), Some((i32::MAX, i32::MIN)));
    assert_eq!(glide.position_at((i32::MAX, i32::MIN), 1), Some((i32::MAX, i32::MIN)));
    assert_eq!(glide.position_at((10, -10), 1), Some((1073741833, -1073741834)));
}

#[test]
fn steps_in_one_direction() {
    assert_eq!(offset_of(MoveMode::Absolute, 10, 4), 6);
    assert_eq!(offset_of(MoveMode::Absolute, i32::MIN, i32::MAX), -4294967295);
    assert_eq!(offset_of(MoveMode::Relative, 10, 4), 10);
    assert_eq!(step_along(0, 7, 1, 2), 3);
    assert_eq!(step_along(0, -7, 1, 2), -3);
    assert_eq!(step_along(5, -7, 0, 2), 5);
    assert_eq!(step_along(5, 0, 1, 2), 5);
    assert_eq!(moved_by(5, -7), -2);
    assert_eq!(moved_by(i32::MAX, 1), i32::MAX);
    assert_eq!(moved_by(i32::MIN, -1), i32::MIN);
    assert_eq!(moved_by(i32::MIN, i32::MAX), -1);
}

#[test]
fn waiting_for_a_moment() {
    assert_eq!(remaining_wait(0, 0), None);
    assert_eq!(remaining_wait(1, 0), Some(Wait { secs: 0, nanos: 1_000_000 }));
    assert_eq!(remaining_wait(1, 999_999), Some(Wait { secs: 0, nanos: 1 }));
    assert_eq!(remaining_wait(1, 1_000_000), None);
    assert_eq!(remaining_wait(1, 1_000_001), None);
    assert_eq!(remaining_wait(2500, 250_000_001), Some(Wait { secs: 2, nanos: 249_999_999 }));
    assert_eq!(
        remaining_wait(u64::MAX, 0),
        Some(Wait { secs: 18446744073709551, nanos: 615_000_000 })
    );
    assert_eq!(remaining_wait(5, u128::MAX), None);
}
