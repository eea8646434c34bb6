//! The input latch: at most one heading change per tick, reversals refused.

use vstd::prelude::*;
use crate::geometry::{Direction, opposite_spec};

verus! {

/// An input event, as the core sees it.
#[derive(Clone, Copy, Debug, PartialEq, Eq, Structural)]
pub enum InputEvent {
    Quit,
    Escape,
    Arrow(Direction),
    Other,
}

/// What the scheduler does after an event.
#[derive(Clone, Copy, Debug, PartialEq, Eq, Structural)]
pub enum Control {
    Continue,
    Quit,
}

/// The current heading and whether a directional event was already taken
/// this tick.
#[derive(Clone, Copy, Debug, PartialEq, Eq, Structural)]
pub struct InputLatch {
    pub direction: Direction,
    pub action_taken: bool,
}

impl InputLatch {
    /// The latch after `record(d)`: the first directional event of a tick
    /// closes the latch, and it turns the heading unless it asks for the
    /// reverse of it.
    pub open spec fn record_spec(self, d: Direction) -> InputLatch {
        if self.action_taken {
            self
        } else if d == opposite_spec(self.direction) {
            InputLatch { direction: self.direction, action_taken: true }
        } else {
            InputLatch { direction: d, action_taken: true }
        }
    }

    /// The latch after `consume_and_reset()`: open again, same heading.
    pub open spec fn reset_spec(self) -> InputLatch {
        InputLatch { direction: self.direction, action_taken: false }
    }

    /// An open latch with heading `direction`.
    pub fn new(direction: Direction) -> (r: InputLatch)
        ensures
            r.direction == direction,
            !r.action_taken,
    {
        InputLatch { direction, action_taken: false }
    }

    /// Offers heading `d` for this tick.
    pub fn record(&mut self, d: Direction)
        ensures
            *final(self) == old(self).record_spec(d),
    {
        if !self.action_taken {
            if d != self.direction.opposite() {
                self.direction = d;
            }
            self.action_taken = true;
        }
    }

    /// Ends the tick's input: returns the heading to simulate with and opens
    /// the latch for the next tick.
    pub fn consume_and_reset(&mut self) -> (r: Direction)
        ensures
            r == old(self).direction,
            *final(self) == old(self).reset_spec(),
    {
        self.action_taken = false;
        self.direction
    }

    /// Handles one input event: quit and escape end the game whatever the
    /// latch holds, an arrow is recorded, anything else is ignored.
    pub fn handle_event(&mut self, ev: InputEvent) -> (r: Control)
        ensures
            r == (if ev == InputEvent::Quit || ev == InputEvent::Escape {
                Control::Quit
            } else {
                Control::Continue
            }),
            *final(self) == match ev {
                InputEvent::Arrow(d) => old(self).record_spec(d),
                _ => *old(self),
            },
    {
        match ev {
            InputEvent::Quit => Control::Quit,
            InputEvent::Escape => Control::Quit,
            InputEvent::Arrow(d) => {
                self.record(d);
                Control::Continue
            },
            InputEvent::Other => Control::Continue,
        }
    }
}

/// Heading right, an event asking for left leaves the heading as it was; one
/// asking for up or down, on an open latch, turns it.
pub proof fn lemma_reversal_rejected(l: InputLatch)
    requires
        l.direction == Direction::Right,
    ensures
        l.record_spec(Direction::Left).direction == Direction::Right,
        !l.action_taken ==> l.record_spec(Direction::Up).direction == Direction::Up,
        !l.action_taken ==> l.record_spec(Direction::Down).direction == Direction::Down,
{
}

/// Two resets with no event recorded between them leave the heading as it
/// was, and the second changes nothing.
pub proof fn lemma_reset_twice(l: InputLatch)
    ensures
        l.reset_spec().reset_spec().direction == l.direction,
        l.reset_spec().reset_spec() == l.reset_spec(),
{
}

} // verus!
