use vstd::prelude::*;
use vstd::string::StrSliceExecFns;
use vstd::string::StringExecFns;

verus! {

/// A key that was pressed, as far as typing a line is concerned.
#[derive(Debug)]
pub enum KeyPress {
    Enter,
    Space,
    Backspace,
    Escape,
    /// A key that writes the given text.
    Character(String),
    /// Any other key.
    Other,
}

/// What follows from a key press, for the rest of the game to carry out.
#[derive(Debug)]
pub enum InputEffect {
    /// Nothing besides what happened to the line.
    Nothing,
    /// The player began to type: movement is to be held.
    Opened,
    /// The player gave up the line: movement is free again.
    Cancelled,
    /// The player sent the line: it is shown, a request goes out for it,
    /// and movement is free again.
    Submitted { message: String },
}

/// An `InputEffect` as plain mathematical values.
pub enum InputEffectView {
    Nothing,
    Opened,
    Cancelled,
    Submitted { message: Seq<char> },
}

impl View for InputEffect {
    type V = InputEffectView;

    open spec fn view(&self) -> InputEffectView {
        match self {
            InputEffect::Nothing => InputEffectView::Nothing,
            InputEffect::Opened => InputEffectView::Opened,
            InputEffect::Cancelled => InputEffectView::Cancelled,
            InputEffect::Submitted { message } => InputEffectView::Submitted { message: message@ },
        }
    }
}

/// A `KeyPress` as plain mathematical values.
pub enum KeyPressView {
    Enter,
    Space,
    Backspace,
    Escape,
    Character(Seq<char>),
    Other,
}

impl View for KeyPress {
    type V = KeyPressView;

    open spec fn view(&self) -> KeyPressView {
        match self {
            KeyPress::Enter => KeyPressView::Enter,
            KeyPress::Space => KeyPressView::Space,
            KeyPress::Backspace => KeyPressView::Backspace,
            KeyPress::Escape => KeyPressView::Escape,
            KeyPress::Character(text) => KeyPressView::Character(text@),
            KeyPress::Other => KeyPressView::Other,
        }
    }
}

/// The line that the player is typing, and whether typing is on.
#[derive(Debug)]
pub struct InputState {
    pub is_typing: bool,
    pub line: String,
}

/// An `InputState` as plain mathematical values.
pub struct InputView {
    pub is_typing: bool,
    pub line: Seq<char>,
}

impl View for InputState {
    type V = InputView;

    open spec fn view(&self) -> InputView {
        InputView { is_typing: self.is_typing, line: self.line@ }
    }
}

/// The state after a key press. `near` says whether a character stands
/// within reach of the player, which is what lets a space open the line.
pub open spec fn state_after_key(state: InputView, key: KeyPressView, near: bool) -> InputView {
    match key {
        KeyPressView::Enter => if state.is_typing && state.line.len() > 0 {
            InputView { is_typing: false, line: Seq::empty() }
        } else {
            state
        },
        KeyPressView::Space => if state.is_typing {
            InputView { is_typing: true, line: state.line.push(' ') }
        } else {
            InputView { is_typing: near, line: state.line }
        },
        KeyPressView::Backspace => if state.is_typing && state.line.len() > 0 {
            InputView { is_typing: true, line: state.line.drop_last() }
        } else {
            state
        },
        KeyPressView::Escape => if state.is_typing {
            InputView { is_typing: false, line: Seq::empty() }
        } else {
            state
        },
        KeyPressView::Character(text) => if state.is_typing {
            InputView { is_typing: true, line: state.line + text }
        } else {
            state
        },
        KeyPressView::Other => state,
    }
}

/// What follows from a key press.
pub open spec fn effect_of_key(state: InputView, key: KeyPressView, near: bool) -> InputEffectView {
    match key {
        KeyPressView::Enter => if state.is_typing && state.line.len() > 0 {
            InputEffectView::Submitted { message: state.line }
        } else {
            InputEffectView::Nothing
        },
        KeyPressView::Space => if !state.is_typing && near {
            InputEffectView::Opened
        } else {
            InputEffectView::Nothing
        },
        KeyPressView::Escape => if state.is_typing {
            InputEffectView::Cancelled
        } else {
            InputEffectView::Nothing
        },
        _ => InputEffectView::Nothing,
    }
}

impl InputState {
    /// Typing is off and the line is empty.
    pub fn new() -> (state: InputState)
        ensures
            state@ == (InputView { is_typing: false, line: Seq::empty() }),
    {
        InputState { is_typing: false, line: String::new() }
    }

    /// Takes one key press and says what follows from it.
    pub fn on_key(&mut self, key: &KeyPress, near: bool) -> (effect: InputEffect)
        ensures
            final(self)@ == state_after_key(old(self)@, key@, near),
            effect@ == effect_of_key(old(self)@, key@, near),
    {
        match key {
            KeyPress::Enter => {
                if !self.is_typing || self.line.as_str().unicode_len() == 0 {
                    return InputEffect::Nothing;
                }
                let message = self.line.clone();
                self.line = String::new();
                self.is_typing = false;
                InputEffect::Submitted { message }
            },
            KeyPress::Space => {
                if self.is_typing {
                    proof {
                        reveal_strlit(" ");
                    }
                    assert(" "@ =~= seq![' ']);
                    self.line.append(" ");
                    assert(self.line@ =~= old(self).line@.push(' '));
                    InputEffect::Nothing
                } else if near {
                    self.is_typing = true;
                    InputEffect::Opened
                } else {
                    InputEffect::Nothing
                }
            },
            KeyPress::Backspace => {
                if self.is_typing {
                    let count = self.line.as_str().unicode_len();
                    if count > 0 {
                        let shorter = String::from_str(
                            self.line.as_str().substring_char(0, count - 1),
                        );
                        assert(shorter@ =~= old(self).line@.drop_last());
                        self.line = shorter;
                    }
                }
                InputEffect::Nothing
            },
            KeyPress::Escape => {
                if self.is_typing {
                    self.line = String::new();
                    self.is_typing = false;
                    InputEffect::Cancelled
                } else {
                    InputEffect::Nothing
                }
            },
            KeyPress::Character(text) => {
                if self.is_typing {
                    self.line.append(text.as_str());
                }
                InputEffect::Nothing
            },
            KeyPress::Other => InputEffect::Nothing,
        }
    }
}

/// Whether the player may move after the given toggles of the input line,
/// taken in order: each one that turns typing on holds movement, each one
/// that turns it off frees it.
pub open spec fn movement_after(can_move: bool, toggles: Seq<bool>) -> bool {
    if toggles.len() == 0 {
        can_move
    } else {
        !toggles.last()
    }
}

/// Whether the player may move after the given toggles of the input line.
pub fn movement_allowed(can_move: bool, toggles: &Vec<bool>) -> (allowed: bool)
    ensures
        allowed == movement_after(can_move, toggles@),
{
    if toggles.len() == 0 {
        can_move
    } else {
        !toggles[toggles.len() - 1]
    }
}

/// The direction that the movement keys ask for, as steps along the two
/// ground axes: forward takes one from the first axis and back adds one;
/// left adds one to the second axis and right takes one.
pub open spec fn direction_of(forward: bool, back: bool, left: bool, right: bool) -> (int, int) {
    (
        (if back { 1int } else { 0int }) - (if forward { 1int } else { 0int }),
        (if left { 1int } else { 0int }) - (if right { 1int } else { 0int }),
    )
}

/// The direction that the movement keys ask for.
pub fn get_direction(forward: bool, back: bool, left: bool, right: bool) -> (direction: (i8, i8))
    ensures
        (direction.0 as int, direction.1 as int) == direction_of(forward, back, left, right),
{
    let mut along: i8 = 0;
    let mut across: i8 = 0;
    if forward {
        along -= 1;
    }
    if back {
        along += 1;
    }
    if left {
        across += 1;
    }
    if right {
        across -= 1;
    }
    (along, across)
}

} // verus!
