//! The events that drive the dashboard.

use std::time::Duration;
use vstd::prelude::*;

verus! {

/// An event of the merged input queue: an input of the terminal, or the
/// periodic tick.
#[derive(Debug)]
pub enum Event<I> {
    Input(I),
    Tick,
}

/// A key press, as far as the dashboard tells keys apart.
#[derive(Debug, Clone, Copy, PartialEq, Eq, Structural)]
pub enum Key {
    Char(char),
    Enter,
    Up,
    Down,
    Left,
    Right,
    Other,
}

/// What `Duration::from_millis` returns for a number of milliseconds.
pub uninterp spec fn millis(ms: u64) -> Duration;

/// `Duration::from_millis` builds the duration of that many milliseconds;
/// it depends on the number alone and does not panic.
pub assume_specification[ Duration::from_millis ](ms: u64) -> (d: Duration)
    ensures
        d == millis(ms),
;

/// Settings of the event sources.
#[derive(Debug, Clone, Copy)]
pub struct Config {
    /// Time between two ticks.
    pub tick_rate: Duration,
}

impl Default for Config {
    /// A tick every 250 milliseconds.
    fn default() -> (config: Config)
        ensures
            config.tick_rate == millis(250),
    {
        Config { tick_rate: Duration::from_millis(250) }
    }
}

} // verus!
