//! The errors the game core reports.

use vstd::prelude::*;
use crate::text::{append_decimal, append_text, decimal, text_of};

verus! {

/// Everything that can go wrong while building or advancing a game.
#[derive(Copy, Clone, Eq, PartialEq, Debug, Structural)]
pub enum LoongCtrlErr {
    /// A row index outside the grid was asked for.
    RowIndexOutOfBounds(u16),
    /// A column index outside the grid was asked for.
    ColumnIndexOutOfBounds(u16),
    /// The head ran into the body, or a reversal was refused as fatal.
    LoongAteItself,
    /// The head left the grid while walls are solid.
    LoongHitTheWall,
    /// The initial creature does not fit left of the grid's centre.
    InitLoongSizeIsBig,
    /// The creature has no segments.
    LoongIsZero,
}

pub type LoongCtrlResult<T> = Result<T, LoongCtrlErr>;

impl LoongCtrlErr {
    /// The human-readable description of each error; an index that was out
    /// of bounds is named in it.
    pub open spec fn spec_message(self) -> Seq<char> {
        match self {
            LoongCtrlErr::RowIndexOutOfBounds(i) => "row index ("@ + decimal(i as nat)
                + ") is out of bounds"@,
            LoongCtrlErr::ColumnIndexOutOfBounds(i) => "column index ("@ + decimal(i as nat)
                + ") is out of bounds"@,
            LoongCtrlErr::LoongAteItself => "the loong ate itself"@,
            LoongCtrlErr::LoongHitTheWall => "the loong hit the wall"@,
            LoongCtrlErr::InitLoongSizeIsBig => "initial loong size is more than possible"@,
            LoongCtrlErr::LoongIsZero => "something is really wrong. your loong size is zero"@,
        }
    }

    /// The description of the error, as text.
    pub fn message(&self) -> (r: String)
        ensures
            r@ == self.spec_message(),
    {
        match self {
            LoongCtrlErr::RowIndexOutOfBounds(i) => {
                let mut chars: Vec<char> = Vec::new();
                append_text(&mut chars, "row index (");
                append_decimal(&mut chars, *i);
                append_text(&mut chars, ") is out of bounds");
                assert(chars@ =~= self.spec_message());
                text_of(&chars)
            },
            LoongCtrlErr::ColumnIndexOutOfBounds(i) => {
                let mut chars: Vec<char> = Vec::new();
                append_text(&mut chars, "column index (");
                append_decimal(&mut chars, *i);
                append_text(&mut chars, ") is out of bounds");
                assert(chars@ =~= self.spec_message());
                text_of(&chars)
            },
            LoongCtrlErr::LoongAteItself => "the loong ate itself".to_owned(),
            LoongCtrlErr::LoongHitTheWall => "the loong hit the wall".to_owned(),
            LoongCtrlErr::InitLoongSizeIsBig => "initial loong size is more than possible".to_owned(),
            LoongCtrlErr::LoongIsZero => "something is really wrong. your loong size is zero".to_owned(),
        }
    }
}

} // verus!
