//! Selections: a span of text between two positions.
use crate::cursor::Position;
#[allow(unused_imports)]
use crate::cursor::{not_after, Pos};
use vstd::prelude::*;

verus! {

/// Linear text selection represented by anchor and active endpoints.
#[derive(Debug, Clone, Copy, PartialEq, Eq, Structural)]
pub struct Selection {
    pub anchor: Position,
    pub active: Position,
}

/// A selection in mathematical integers.
pub struct Sel {
    pub anchor: Pos,
    pub active: Pos,
}

impl View for Selection {
    type V = Sel;

    open spec fn view(&self) -> Sel {
        Sel { anchor: self.anchor@, active: self.active@ }
    }
}

/// The view of an optional selection.
pub open spec fn opt_sel(s: Option<Selection>) -> Option<Sel> {
    match s {
        Some(sel) => Some(sel@),
        None => None,
    }
}

/// The endpoint that comes first in reading order.
pub open spec fn sel_start(s: Sel) -> Pos {
    if not_after(s.anchor, s.active) {
        s.anchor
    } else {
        s.active
    }
}

/// The endpoint that comes last in reading order.
pub open spec fn sel_end(s: Sel) -> Pos {
    if not_after(s.anchor, s.active) {
        s.active
    } else {
        s.anchor
    }
}

impl Selection {
    /// The selection from `anchor` to `active`.
    pub fn new(anchor: Position, active: Position) -> (out: Self)
        ensures
            out.anchor == anchor,
            out.active == active,
    {
        Selection { anchor, active }
    }

    /// Whether nothing lies between the endpoints.
    pub fn is_collapsed(self) -> (yes: bool)
        ensures
            yes == (self.anchor == self.active),
    {
        self.anchor == self.active
    }

    /// The endpoints in reading order.
    pub fn normalized(self) -> (out: (Position, Position))
        ensures
            out.0@ == sel_start(self@),
            out.1@ == sel_end(self@),
    {
        if self.anchor.line < self.active.line || (self.anchor.line == self.active.line
            && self.anchor.column <= self.active.column) {
            (self.anchor, self.active)
        } else {
            (self.active, self.anchor)
        }
    }
}

/// Normalizing orders the endpoints, keeps both, and does not depend on which
/// of them is the anchor.
pub proof fn law_normalized_is_ordered(s: Sel)
    ensures
        not_after(sel_start(s), sel_end(s)),
        (sel_start(s) == s.anchor && sel_end(s) == s.active) || (sel_start(s) == s.active
            && sel_end(s) == s.anchor),
        sel_start(Sel { anchor: s.active, active: s.anchor }) == sel_start(s),
        sel_end(Sel { anchor: s.active, active: s.anchor }) == sel_end(s),
{
}

} // verus!
