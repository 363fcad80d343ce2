//! Driver logic for a conference-badge device: an AMOLED panel driver that
//! turns pixel-drawing requests into byte-exact bus transaction plans, and the
//! digit state of the badge's multiplexed numeric display.
//!
//! The library computes *what* must go over the shared serial bus — framed
//! command bytes, aligned address windows, chunked pixel bursts with their
//! chip-select and bus-lock discipline — and proves those plans correct.
//! Performing the transfers on real hardware is left to a thin outer layer.
use vstd::prelude::*;

pub mod amoled;
pub mod bus;
pub mod command;
pub mod geometry;
pub mod stream;
pub mod window;

verus! {

/// A request sent to the numeric-display task.
#[derive(Clone, Copy, PartialEq, Eq, Structural)]
pub enum DisplayCommand {
    SetNumber(Option<u8>),
}

/// The logical state of the two multiplexed seven-segment digits: the value
/// each digit currently shows, or `None` while a digit is blanked.
pub struct Displays {
    pub num_high: Option<u8>,
    pub num_low: Option<u8>,
}

impl Displays {
    /// Both digits start out showing 9, as the display task does before any
    /// command arrives.
    pub fn new() -> (r: Displays)
        ensures
            r.num_high == Some(9u8),
            r.num_low == Some(9u8),
    {
        Displays { num_high: Some(9), num_low: Some(9) }
    }

    /// The display task's decision step: a new number splits into its high and
    /// low nibbles, one per digit; `None` blanks both digits.
    pub fn apply_command(&mut self, cmd: DisplayCommand)
        ensures
            (match cmd {
                DisplayCommand::SetNumber(Some(n)) => final(self).num_high == Some(n >> 4)
                    && final(self).num_low == Some(n & 0x0F),
                DisplayCommand::SetNumber(None) => final(self).num_high is None
                    && final(self).num_low is None,
            }),
    {
        match cmd {
            DisplayCommand::SetNumber(Some(n)) => {
                self.num_high = Some(n >> 4);
                self.num_low = Some(n & 0x0F);
            },
            DisplayCommand::SetNumber(None) => {
                self.num_high = None;
                self.num_low = None;
            },
        }
    }

    /// Show `number` on the digits (split into nibbles), or blank them.
    pub fn set_number(&mut self, number: Option<u8>)
        ensures
            (match number {
                Some(n) => final(self).num_high == Some(n >> 4) && final(self).num_low == Some(
                    n & 0x0F,
                ),
                None => final(self).num_high is None && final(self).num_low is None,
            }),
    {
        self.apply_command(DisplayCommand::SetNumber(number));
    }
}

} // verus!
