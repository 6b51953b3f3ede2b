//! The instruction model: what a script can ask for, and when.

use crate::text::{join, words};
use vstd::prelude::*;

verus! {

/// A button of the pointing device.
#[derive(Debug, Clone, Copy, PartialEq, Eq, Structural)]
pub enum Button {
    /// The primary button.
    Left,
    /// The secondary button.
    Right,
    /// The wheel button.
    Middle,
    /// The fourth button, which usually goes back.
    Back,
    /// The fifth button, which usually goes forward.
    Forward,
}

/// How the coordinates of a pointer move are meant.
#[derive(Debug, Clone, Copy, PartialEq, Eq, Structural)]
pub enum MoveMode {
    /// As a position on the screen.
    Absolute,
    /// As a displacement from where the pointer is.
    Relative,
}

/// A key of the keyboard: one of the named keys, or the key of a character.
#[derive(Debug, Clone, Copy, PartialEq, Eq, Structural)]
pub enum Key {
    /// Alt.
    Alt,
    /// Backspace.
    Backspace,
    /// Caps lock.
    CapsLock,
    /// Control.
    Control,
    /// Delete.
    Delete,
    /// Arrow down.
    DownArrow,
    /// End.
    End,
    /// Enter.
    Return,
    /// Escape.
    Escape,
    /// Function key 1.
    F1,
    /// Function key 2.
    F2,
    /// Function key 3.
    F3,
    /// Function key 4.
    F4,
    /// Function key 5.
    F5,
    /// Function key 6.
    F6,
    /// Function key 7.
    F7,
    /// Function key 8.
    F8,
    /// Function key 9.
    F9,
    /// Function key 10.
    F10,
    /// Function key 11.
    F11,
    /// Function key 12.
    F12,
    /// Function key 13.
    F13,
    /// Function key 14.
    F14,
    /// Function key 15.
    F15,
    /// Function key 16.
    F16,
    /// Function key 17.
    F17,
    /// Function key 18.
    F18,
    /// Function key 19.
    F19,
    /// Function key 20.
    F20,
    /// Home.
    Home,
    /// Insert.
    Insert,
    /// Arrow left.
    LeftArrow,
    /// Page down.
    PageDown,
    /// Page up.
    PageUp,
    /// Arrow right.
    RightArrow,
    /// Shift.
    Shift,
    /// The space bar.
    Space,
    /// The super key (Windows key, command key).
    Meta,
    /// Tab.
    Tab,
    /// Arrow up.
    UpArrow,
    /// The key that types the given character.
    Unicode(char),
}

/// What the machine that will play a script can do.
#[derive(Debug, Clone, Copy, PartialEq, Eq, Structural)]
pub struct Platform {
    /// Whether the buttons `Back` and `Forward` can be pressed.
    pub side_buttons: bool,
    /// Whether there is an `Insert` key.
    pub insert_key: bool,
}

/// Whether `c` names a key by itself: a lower-case letter, a digit, or one
/// of the punctuation marks of the main block of a keyboard.
pub open spec fn is_key_char(c: char) -> bool {
    ||| ('a' <= c && c <= 'z')
    ||| ('0' <= c && c <= '9')
    ||| c == '`'
    ||| c == '-'
    ||| c == '='
    ||| c == '['
    ||| c == ']'
    ||| c == '\\'
    ||| c == ';'
    ||| c == '\''
    ||| c == ','
    ||| c == '.'
    ||| c == '/'
}

/// Whether `text` is made of one or more words with a single space between
/// neighbours and nothing else.
pub open spec fn is_plain_text(text: Seq<char>) -> bool {
    words(text).len() > 0 && join(words(text)) == text
}

impl Key {
    /// A character key holds a character that names a key.
    pub open spec fn wf(self) -> bool {
        self matches Key::Unicode(c) ==> is_key_char(c)
    }
}

impl Platform {
    /// Whether the platform has the button.
    pub open spec fn has_button(self, button: Button) -> bool {
        (button == Button::Back || button == Button::Forward) ==> self.side_buttons
    }

    /// Whether the platform has the key.
    pub open spec fn has_key(self, key: Key) -> bool {
        key == Key::Insert ==> self.insert_key
    }
}

/// One thing to do to the input devices.
#[derive(Debug, Clone, PartialEq, Eq)]
pub enum Action {
    /// Move the pointer to (`x`, `y`), or by that much, over `duration`
    /// milliseconds.
    PointerMove { x: i32, y: i32, duration: u64, mode: MoveMode },
    /// Press a button and hold it.
    ButtonDown { button: Button },
    /// Let a button go.
    ButtonUp { button: Button },
    /// Press a key and hold it.
    KeyDown { key: Key },
    /// Let a key go.
    KeyUp { key: Key },
    /// Type a text.
    TypeText { text: String },
}

/// An `Action` as a mathematical value.
pub enum ActionView {
    PointerMove { x: i32, y: i32, duration: u64, mode: MoveMode },
    ButtonDown { button: Button },
    ButtonUp { button: Button },
    KeyDown { key: Key },
    KeyUp { key: Key },
    TypeText { text: Seq<char> },
}

impl ActionView {
    /// A key is one that exists, and a text is plain.
    pub open spec fn wf(self) -> bool {
        match self {
            ActionView::KeyDown { key } => key.wf(),
            ActionView::KeyUp { key } => key.wf(),
            ActionView::TypeText { text } => is_plain_text(text),
            _ => true,
        }
    }

    /// Whether the platform can do the action.
    pub open spec fn supported(self, platform: Platform) -> bool {
        match self {
            ActionView::ButtonDown { button } => platform.has_button(button),
            ActionView::ButtonUp { button } => platform.has_button(button),
            ActionView::KeyDown { key } => platform.has_key(key),
            ActionView::KeyUp { key } => platform.has_key(key),
            _ => true,
        }
    }
}

impl View for Action {
    type V = ActionView;

    open spec fn view(&self) -> ActionView {
        match *self {
            Action::PointerMove { x, y, duration, mode } => ActionView::PointerMove {
                x,
                y,
                duration,
                mode,
            },
            Action::ButtonDown { button } => ActionView::ButtonDown { button },
            Action::ButtonUp { button } => ActionView::ButtonUp { button },
            Action::KeyDown { key } => ActionView::KeyDown { key },
            Action::KeyUp { key } => ActionView::KeyUp { key },
            Action::TypeText { text } => ActionView::TypeText { text: text@ },
        }
    }
}

/// The views of a list of actions.
pub open spec fn action_views(actions: Seq<Action>) -> Seq<ActionView> {
    Seq::new(actions.len(), |i: int| actions[i]@)
}

/// Everything that is to happen at one moment.
#[derive(Debug, Clone, PartialEq, Eq)]
pub struct InstructionGroup {
    /// Milliseconds from the start of the run.
    pub time: u64,
    /// What to do then, in this order.
    pub actions: Vec<Action>,
}

/// An `InstructionGroup` as a mathematical value.
pub struct InstructionGroupView {
    pub time: u64,
    pub actions: Seq<ActionView>,
}

impl InstructionGroupView {
    /// There is something to do, and each action is well formed.
    pub open spec fn wf(self) -> bool {
        &&& self.actions.len() > 0
        &&& forall|i: int| 0 <= i < self.actions.len() ==> (#[trigger] self.actions[i]).wf()
    }
}

impl View for InstructionGroup {
    type V = InstructionGroupView;

    open spec fn view(&self) -> InstructionGroupView {
        InstructionGroupView { time: self.time, actions: action_views(self.actions@) }
    }
}

/// The views of a list of instruction groups.
pub open spec fn group_views(groups: Seq<InstructionGroup>) -> Seq<InstructionGroupView> {
    Seq::new(groups.len(), |i: int| groups[i]@)
}

/// Whether the times of `groups` never go down.
pub open spec fn in_time_order(groups: Seq<InstructionGroupView>) -> bool {
    forall|i: int, j: int| 0 <= i <= j < groups.len() ==> groups[i].time <= groups[j].time
}

} // verus!
