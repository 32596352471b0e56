//! Decisions of the scrollable documentation viewer.
//!
//! The viewer itself (terminal setup, drawing, reading key events) lives
//! in the surrounding binary; the mapping from a pressed key to the
//! viewer's next move is pure and lives here.

use vstd::prelude::*;

verus! {

/// A key press, as far as the viewer distinguishes them.
#[derive(Debug, Clone, Copy, PartialEq, Eq, Structural)]
pub enum PagerKey {
    Up,
    Down,
    LowerK,
    LowerJ,
    LowerU,
    LowerD,
    LowerG,
    UpperG,
    LowerQ,
    Esc,
    Other,
}

/// What the viewer does next.
#[derive(Debug, Clone, Copy, PartialEq, Eq, Structural)]
pub enum PagerAction {
    /// Scroll by this many lines; negative is up, positive is down.
    Scroll(i32),
    /// Leave the viewer.
    Quit,
    /// Ignore the key.
    Ignore,
}

/// The viewer's key bindings: one line up or down for the arrow and
/// `k`/`j` keys, a thirty-line page for `u`/`d`, a jump for `g`/`G`, and
/// quitting on `q` or escape.
pub fn pager_action(key: PagerKey) -> (r: PagerAction)
    ensures
        key == PagerKey::Up || key == PagerKey::LowerK ==> r == PagerAction::Scroll(-1i32),
        key == PagerKey::Down || key == PagerKey::LowerJ ==> r == PagerAction::Scroll(1i32),
        key == PagerKey::LowerU ==> r == PagerAction::Scroll(-30i32),
        key == PagerKey::LowerD ==> r == PagerAction::Scroll(30i32),
        key == PagerKey::LowerG ==> r == PagerAction::Scroll(-100000i32),
        key == PagerKey::UpperG ==> r == PagerAction::Scroll(100000i32),
        key == PagerKey::LowerQ || key == PagerKey::Esc ==> r == PagerAction::Quit,
        key == PagerKey::Other ==> r == PagerAction::Ignore,
{
    match key {
        PagerKey::Up | PagerKey::LowerK => PagerAction::Scroll(-1),
        PagerKey::Down | PagerKey::LowerJ => PagerAction::Scroll(1),
        PagerKey::LowerU => PagerAction::Scroll(-30),
        PagerKey::LowerD => PagerAction::Scroll(30),
        PagerKey::LowerG => PagerAction::Scroll(-100000),
        PagerKey::UpperG => PagerAction::Scroll(100000),
        PagerKey::LowerQ | PagerKey::Esc => PagerAction::Quit,
        PagerKey::Other => PagerAction::Ignore,
    }
}

} // verus!
