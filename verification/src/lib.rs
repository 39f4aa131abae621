//! Core state model of a terminal emulator.
//!
//! The crate consumes a raw byte stream (printable text interleaved with
//! escape, CSI, OSC and DCS sequences) and maintains the authoritative
//! model of what should be displayed: a grid of styled character cells,
//! a cursor, scrollback history, an active selection and hyperlink
//! associations.  Color resolution, input encoding, rendering and process
//! plumbing are external collaborators and are not modelled here.

use vstd::prelude::*;
use vstd::std_specs::cmp::PartialOrdIs;
use vstd::std_specs::cmp::PartialOrdSpec;
use core::ops::Range;

pub mod cell;
pub mod line;
pub mod hyperlink;
pub mod parser;
pub mod reflow;
pub mod screen;
pub mod selection;
pub mod terminal;

verus! {

/// Index into the whole retained buffer of rows.  Index 0 is the top of
/// the scrollback (if any); the index of the top of the visible screen
/// depends on the terminal dimensions and the scrollback depth.
pub type PhysRowIndex = usize;

/// Index into the visible portion of the screen.  Value 0 is the first
/// visible row.  A `VisibleRowIndex` must be resolved into a
/// `PhysRowIndex` to reach an actual row.  It is signed so that motion
/// arithmetic that lands outside the window stays representable and is
/// clamped at one choke point instead of wrapping.
pub type VisibleRowIndex = i64;

/// Like `VisibleRowIndex`, but may reach backwards into the scrollback.
/// Deliberately a differently sized signed type so that the compiler
/// catches accidental blending of the two index spaces.
pub type ScrollbackOrVisibleRowIndex = i32;

/// Half-open interval membership: `range.start <= value < range.end`.
pub fn in_range<T: PartialOrd>(value: T, range: &Range<T>) -> (r: bool)
    ensures
        T::obeys_partial_cmp_spec() ==> r == (value.is_ge(&range.start)
            && value.is_lt(&range.end)),
{
    value.ge(&range.start) && value.lt(&range.end)
}

/// A cursor-motion target whose resolution is deferred: either an
/// absolute visible row or an offset relative to the current cursor row.
/// Both cases are signed so that range checking happens once, at the
/// point where the motion is applied (see `TerminalState`).
#[derive(Debug)]
pub enum Position {
    Absolute(VisibleRowIndex),
    Relative(i64),
}

/// Location of the cursor in the visible portion of the screen.
#[derive(Debug, Copy, Clone, Eq, PartialEq, Structural)]
pub struct CursorPosition {
    pub x: usize,
    pub y: VisibleRowIndex,
}

impl Default for CursorPosition {
    /// The cursor starts in the top-left corner of the screen.
    fn default() -> (r: Self)
        ensures
            r == (CursorPosition { x: 0, y: 0 }),
    {
        CursorPosition { x: 0, y: 0 }
    }
}

/// The only errors a caller ever sees: programmer-misuse conditions.
/// Malformed escape input, out-of-range operands and scrollback growth
/// are absorbed (discard, clamp, trim) and never surface as errors.
#[derive(Debug, Copy, Clone, Eq, PartialEq, Structural)]
pub enum TermError {
    /// A geometry with zero rows was requested.
    ZeroRows,
    /// A geometry with zero columns was requested.
    ZeroCols,
}

/// The response given to a device-attributes query: "I am a VT102".
pub open spec fn device_ident_spec() -> Seq<u8> {
    seq![0x1bu8, 0x5bu8, 0x3fu8, 0x36u8, 0x63u8]
}

/// The bytes of the fixed device-attributes reply, `ESC [ ? 6 c`.
pub fn device_ident() -> (r: Vec<u8>)
    ensures
        r@ == device_ident_spec(),
{
    let mut v: Vec<u8> = Vec::new();
    v.push(0x1b);
    v.push(0x5b);
    v.push(0x3f);
    v.push(0x36);
    v.push(0x63);
    proof {
        assert(v@ =~= device_ident_spec());
    }
    v
}

} // verus!
