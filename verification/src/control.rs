//! The polling loop as a state machine: what the loop does next after each
//! thing that the wait for input brought.

use vstd::prelude::*;

verus! {

/// The seconds that the loop waits for input before it draws again.
pub const POLL_SECONDS: u64 = 1;

/// The character that ends the loop.
pub const QUIT_CHAR: char = 'q';

/// The state of the loop. `Stopped` is final.
#[derive(Clone, Copy, Debug, PartialEq, Eq, Structural)]
pub enum LoopState {
    Running,
    Stopped,
}

/// The key of a keyboard event, as far as the loop tells keys apart.
#[derive(Clone, Copy, Debug, PartialEq, Eq, Structural)]
pub enum Key {
    Char(char),
    Esc,
    Other,
}

/// What happened to the key.
#[derive(Clone, Copy, Debug, PartialEq, Eq, Structural)]
pub enum KeyKind {
    Press,
    Repeat,
    Release,
}

/// What one wait for input brought.
#[derive(Clone, Copy, Debug, PartialEq, Eq, Structural)]
pub enum Input {
    /// The wait ran out with no input.
    Timeout,
    /// A keyboard event.
    Key { key: Key, kind: KeyKind },
    /// Any other event: the mouse, a resize, a paste.
    Other,
    /// The terminal failed, while drawing or while waiting.
    Failure,
}

/// What the caller of the loop does next.
#[derive(Clone, Copy, Debug, PartialEq, Eq, Structural)]
pub enum Action {
    /// Read the battery, draw a frame and wait again.
    Draw,
    /// Leave the loop: the user asked for it.
    Quit,
    /// Leave the loop and report the failure of the terminal.
    Abort,
    /// Nothing: the loop has stopped before.
    Idle,
}

/// The key is one of those that end the loop.
pub open spec fn quit_key(key: Key) -> bool {
    key == Key::Char(QUIT_CHAR) || key == Key::Esc
}

/// The input is a press of a quit key: no repeat and no release.
pub open spec fn quits(input: Input) -> bool {
    input matches Input::Key { key, kind } && kind == KeyKind::Press && quit_key(key)
}

/// The state after `input` arrived in `state`.
pub open spec fn next_state(state: LoopState, input: Input) -> LoopState {
    if state == LoopState::Running && !quits(input) && input != Input::Failure {
        LoopState::Running
    } else {
        LoopState::Stopped
    }
}

/// What is done after `input` arrived in `state`.
pub open spec fn next_action(state: LoopState, input: Input) -> Action {
    if state == LoopState::Stopped {
        Action::Idle
    } else if input == Input::Failure {
        Action::Abort
    } else if quits(input) {
        Action::Quit
    } else {
        Action::Draw
    }
}

/// The state after a run of inputs, one after the other, from `state`.
pub open spec fn state_after(state: LoopState, inputs: Seq<Input>) -> LoopState
    decreases inputs.len(),
{
    if inputs.len() == 0 {
        state
    } else {
        next_state(state_after(state, inputs.drop_last()), inputs.last())
    }
}

/// Whether the input is a press of a quit key.
pub fn is_quit(input: Input) -> (b: bool)
    ensures
        b == quits(input),
{
    match input {
        Input::Key { key, kind } => {
            let pressed = match kind {
                KeyKind::Press => true,
                KeyKind::Repeat => false,
                KeyKind::Release => false,
            };
            let named = match key {
                Key::Char(c) => c == QUIT_CHAR,
                Key::Esc => true,
                Key::Other => false,
            };
            pressed && named
        },
        _ => false,
    }
}

/// The state in which the loop starts.
pub fn start() -> (state: LoopState)
    ensures
        state == LoopState::Running,
{
    LoopState::Running
}

/// One step of the loop: the next state and what to do, after `input`
/// arrived in `state`. A running loop stops on a press of a quit key and on
/// a failure of the terminal, and on nothing else; a stopped loop stays
/// stopped.
pub fn step(state: LoopState, input: Input) -> (next: (LoopState, Action))
    ensures
        next.0 == next_state(state, input),
        next.1 == next_action(state, input),
{
    match state {
        LoopState::Stopped => (LoopState::Stopped, Action::Idle),
        LoopState::Running => {
            if is_failure(input) {
                (LoopState::Stopped, Action::Abort)
            } else if is_quit(input) {
                (LoopState::Stopped, Action::Quit)
            } else {
                (LoopState::Running, Action::Draw)
            }
        },
    }
}

fn is_failure(input: Input) -> (b: bool)
    ensures
        b == (input == Input::Failure),
{
    match input {
        Input::Failure => true,
        _ => false,
    }
}

/// A press of a quit key stops a running loop at once.
pub proof fn lemma_quit_press_stops(key: Key)
    requires
        quit_key(key),
    ensures
        next_state(LoopState::Running, Input::Key { key, kind: KeyKind::Press })
            == LoopState::Stopped,
        next_action(LoopState::Running, Input::Key { key, kind: KeyKind::Press }) == Action::Quit,
{
}

/// No release, no repeat, no other key, no other event and no timeout stops
/// a running loop.
pub proof fn lemma_only_quit_press_stops(input: Input)
    requires
        input != Input::Failure,
        input matches Input::Key { key, kind } ==> kind != KeyKind::Press || !quit_key(key),
    ensures
        next_state(LoopState::Running, input) == LoopState::Running,
        next_action(LoopState::Running, input) == Action::Draw,
{
}

/// A loop is still running after a run of inputs exactly if it was running
/// before and none of them was a press of a quit key or a failure.
pub proof fn lemma_running_after(state: LoopState, inputs: Seq<Input>)
    ensures
        state_after(state, inputs) == LoopState::Running <==> state == LoopState::Running && forall|
            i: int,
        |
            0 <= i < inputs.len() ==> !quits(#[trigger] inputs[i]) && inputs[i] != Input::Failure,
    decreases inputs.len(),
{
    if inputs.len() > 0 {
        let front = inputs.drop_last();
        lemma_running_after(state, front);
        assert forall|i: int| 0 <= i < front.len() implies front[i] == inputs[i] by {}
        if state_after(state, inputs) == LoopState::Running {
            assert forall|i: int| 0 <= i < inputs.len() implies !quits(#[trigger] inputs[i])
                && inputs[i] != Input::Failure by {
                if i < front.len() {
                    assert(front[i] == inputs[i]);
                }
            }
        }
    }
}

} // verus!
