//! Wire codec for the 3-byte pixel records that travel both over the
//! persistent socket dialect and through the inter-task channel, and the
//! application of decoded commands to the canvas.

use vstd::prelude::*;

use crate::canvas::{
    cleared_grid, coords_in_range, grid_with_cell, Canvas, GRID_SIZE,
};

verus! {

/// First coordinate byte of the clear sentinel.
pub const CLEAR_BYTE_X: u8 = 255;

/// Second coordinate byte of the clear sentinel.
pub const CLEAR_BYTE_Y: u8 = 255;

/// State byte of the clear sentinel.
pub const CLEAR_BYTE_STATE: u8 = 2;

/// A decoded instruction for the render task.
#[derive(PartialEq, Eq, Structural, Debug, Clone, Copy)]
pub enum Command {
    /// Set or clear one cell of the grid.
    Pixel { x: u8, y: u8, state: bool },
    /// Reset the whole grid.
    Clear,
}

impl Command {
    /// The command can be carried on the wire and applied: pixel coordinates
    /// name a cell of the grid.
    pub open spec fn valid(self) -> bool {
        match self {
            Command::Pixel { x, y, state } => coords_in_range(x, y),
            Command::Clear => true,
        }
    }

    /// What applying the command does to a grid: a clear yields the cleared
    /// grid, a valid pixel command sets its one cell, and a rejected pixel
    /// command leaves the grid as it was.
    pub open spec fn apply_to(self, g: Seq<Seq<bool>>) -> Seq<Seq<bool>> {
        match self {
            Command::Pixel { x, y, state } => if coords_in_range(x, y) {
                grid_with_cell(g, x, y, state)
            } else {
                g
            },
            Command::Clear => cleared_grid(),
        }
    }
}

/// The record is the reserved full-canvas clear sentinel. The sentinel pair
/// can never name a cell, so it is distinguishable from every pixel record.
pub open spec fn is_clear_record(b0: u8, b1: u8, b2: u8) -> bool {
    b0 == CLEAR_BYTE_X && b1 == CLEAR_BYTE_Y && b2 == CLEAR_BYTE_STATE
}

/// What a 3-byte wire record means: the clear sentinel, a pixel command for
/// an in-range cell (state on exactly for state byte 1), or nothing.
pub open spec fn spec_decode(b0: u8, b1: u8, b2: u8) -> Option<Command> {
    if is_clear_record(b0, b1, b2) {
        Some(Command::Clear)
    } else if coords_in_range(b0, b1) {
        Some(Command::Pixel { x: b0, y: b1, state: b2 == 1 })
    } else {
        None
    }
}

/// The 3-byte wire form of a valid command.
pub open spec fn spec_encode(c: Command) -> (u8, u8, u8) {
    match c {
        Command::Pixel { x, y, state } => (x, y, if state { 1 as u8 } else { 0 as u8 }),
        Command::Clear => (CLEAR_BYTE_X, CLEAR_BYTE_Y, CLEAR_BYTE_STATE),
    }
}

/// Decode one 3-byte wire record; an out-of-range pixel record decodes to
/// nothing and is thereby rejected.
pub fn decode_record(b0: u8, b1: u8, b2: u8) -> (r: Option<Command>)
    ensures
        r == spec_decode(b0, b1, b2),
{
    if b0 == CLEAR_BYTE_X && b1 == CLEAR_BYTE_Y && b2 == CLEAR_BYTE_STATE {
        Some(Command::Clear)
    } else if (b0 as usize) < GRID_SIZE && (b1 as usize) < GRID_SIZE {
        Some(Command::Pixel { x: b0, y: b1, state: b2 == 1 })
    } else {
        None
    }
}

/// Encode a command into its 3-byte wire form.
pub fn encode_command(c: &Command) -> (r: (u8, u8, u8))
    ensures
        r == spec_encode(*c),
{
    match c {
        Command::Pixel { x, y, state } => (*x, *y, if *state { 1 } else { 0 }),
        Command::Clear => (CLEAR_BYTE_X, CLEAR_BYTE_Y, CLEAR_BYTE_STATE),
    }
}

/// Round trip: the wire form of a valid command decodes back to exactly that
/// command, over the full valid coordinate domain.
pub proof fn lemma_encode_decode_round_trip(c: Command)
    requires
        c.valid(),
    ensures
        ({
            let (b0, b1, b2) = spec_encode(c);
            spec_decode(b0, b1, b2) == Some(c)
        }),
{
}

/// Apply one decoded command to the canvas. A clear turns every cell off; an
/// in-range pixel command sets exactly its own cell to the commanded state; an
/// out-of-range pixel command is rejected and leaves the canvas unchanged.
/// Returns whether the command was applied.
pub fn apply_command(canvas: &mut Canvas, c: &Command) -> (applied: bool)
    requires
        old(canvas).wf(),
    ensures
        final(canvas).wf(),
        final(canvas)@ == c.apply_to(old(canvas)@),
        applied == c.valid(),
{
    match c {
        Command::Pixel { x, y, state } => canvas.set(*x, *y, *state),
        Command::Clear => {
            canvas.clear();
            true
        }
    }
}

} // verus!
