//! The lamps of the traffic light and the command that switches one.

use vstd::prelude::*;

verus! {

/// A lamp of the traffic light.
#[derive(Copy, Clone, PartialEq, Eq, Structural, PartialOrd, Ord, Hash, Debug)]
pub enum Color {
    Red,
    Yellow,
    Green,
}

/// Whether a lamp is lit.
#[derive(Copy, Clone, PartialEq, Eq, Structural, PartialOrd, Ord, Hash, Debug)]
pub enum State {
    Off,
    On,
}

impl Color {
    /// The byte that names this lamp on the wire.
    pub open spec fn wire_code(self) -> u8 {
        match self {
            Color::Red => 0x10,
            Color::Yellow => 0x11,
            Color::Green => 0x12,
        }
    }

    /// The byte that names this lamp on the wire.
    pub fn code(self) -> (code: u8)
        ensures
            code == self.wire_code(),
    {
        match self {
            Color::Red => 0x10,
            Color::Yellow => 0x11,
            Color::Green => 0x12,
        }
    }
}

impl State {
    /// The byte that names this state on the wire.
    pub open spec fn wire_code(self) -> u8 {
        match self {
            State::Off => 0x00,
            State::On => 0x01,
        }
    }

    /// The byte that names this state on the wire.
    pub fn code(self) -> (code: u8)
        ensures
            code == self.wire_code(),
    {
        match self {
            State::Off => 0x00,
            State::On => 0x01,
        }
    }
}

/// The command that puts the lamp `color` into `state`: a zero byte, the
/// lamp's code, the state's code.
pub open spec fn command(color: Color, state: State) -> [u8; 3] {
    [0x00u8, color.wire_code(), state.wire_code()]
}

/// Builds the command that puts the lamp `color` into `state`.
pub fn encode(color: Color, state: State) -> (payload: [u8; 3])
    ensures
        payload == command(color, state),
        payload@ == seq![0x00u8, color.wire_code(), state.wire_code()],
{
    [0x00u8, color.code(), state.code()]
}

/// A command names one lamp and one state: two commands with the same bytes
/// set the same lamp to the same state.
pub proof fn lemma_command_is_unambiguous(c1: Color, s1: State, c2: Color, s2: State)
    requires
        command(c1, s1)@ == command(c2, s2)@,
    ensures
        c1 == c2,
        s1 == s2,
{
    assert(command(c1, s1)@[1] == c1.wire_code());
    assert(command(c2, s2)@[1] == c2.wire_code());
    assert(command(c1, s1)@[2] == s1.wire_code());
    assert(command(c2, s2)@[2] == s2.wire_code());
}

} // verus!
