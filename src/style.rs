use vstd::prelude::*;
use crate::cell::TimeWords;

verus! {

/// The colours a cell can be drawn in.
#[derive(Clone, Copy, Debug, PartialEq, Eq, Structural)]
pub enum Color {
    Red,
    White,
}

/// How a cell is drawn.
#[derive(Clone, Copy, Debug, PartialEq, Eq, Structural)]
pub struct Style {
    pub bold: bool,
    pub color: Color,
}

/// The style of a kind of cell: the time words bold and red, decoys plain white.
pub open spec fn style_spec(kind: TimeWords) -> Style {
    if kind == TimeWords::Others {
        Style { bold: false, color: Color::White }
    } else {
        Style { bold: true, color: Color::Red }
    }
}

/// The style a cell of this kind is drawn in.
pub fn style_of(kind: TimeWords) -> (r: Style)
    ensures
        r == style_spec(kind),
{
    match kind {
        TimeWords::Hour => Style { bold: true, color: Color::Red },
        TimeWords::Minute => Style { bold: true, color: Color::Red },
        TimeWords::AMPM => Style { bold: true, color: Color::Red },
        TimeWords::Others => Style { bold: false, color: Color::White },
    }
}

} // verus!
