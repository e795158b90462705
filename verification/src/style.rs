use vstd::prelude::*;
use crate::model::KIND_COUNT;

verus! {

/// A color as red, green and blue channels.
#[derive(PartialEq, Eq, Structural, Clone, Copy, Debug)]
pub struct Rgb {
    pub red: u8,
    pub green: u8,
    pub blue: u8,
}

/// An outline: its width in pixels and its color.
#[derive(PartialEq, Eq, Structural, Clone, Copy, Debug)]
pub struct StrokeSpec {
    pub width: u32,
    pub color: Rgb,
}

/// The injected visual configuration: fixed colors and, per piece kind,
/// the diameter of its circle as tenths of a square's side.
#[derive(Clone, Copy, Debug)]
pub struct Style {
    pub light_square_color: Rgb,
    pub dark_square_color: Rgb,
    /// Diameter of a piece circle, in tenths of the square size, by kind.
    pub piece_radius_tenths: [u32; KIND_COUNT],
    /// Fill color of a piece circle, by color index.
    pub piece_fill_color: [Rgb; 2],
    pub piece_stroke: StrokeSpec,
    pub selected_piece_stroke: StrokeSpec,
    /// Diameter of a legal-destination marker, in tenths of the square size.
    pub available_move_radius_tenths: u32,
    pub available_move_color: Rgb,
}

impl Style {
    /// Every diameter ratio stays within one square, so that every circle
    /// a renderer emits fits inside its cell.
    pub open spec fn wf(self) -> bool {
        &&& forall|k: int| 0 <= k < KIND_COUNT ==> self.piece_radius_tenths@[k] <= 10
        &&& self.available_move_radius_tenths <= 10
    }

    pub open spec fn spec_default() -> Style {
        Style {
            light_square_color: Rgb { red: 235, green: 235, blue: 200 },
            dark_square_color: Rgb { red: 120, green: 150, blue: 80 },
            piece_radius_tenths: [2u32, 4u32, 6u32, 8u32],
            piece_fill_color: [
                Rgb { red: 85, green: 85, blue: 85 },
                Rgb { red: 250, green: 250, blue: 250 },
            ],
            piece_stroke: StrokeSpec { width: 2, color: Rgb { red: 30, green: 30, blue: 30 } },
            selected_piece_stroke: StrokeSpec {
                width: 2,
                color: Rgb { red: 255, green: 0, blue: 0 },
            },
            available_move_radius_tenths: 1,
            available_move_color: Rgb { red: 160, green: 160, blue: 160 },
        }
    }
}

impl Default for Style {
    fn default() -> (s: Style)
        ensures
            s == Style::spec_default(),
            s.wf(),
    {
        Style {
            light_square_color: Rgb { red: 235, green: 235, blue: 200 },
            dark_square_color: Rgb { red: 120, green: 150, blue: 80 },
            piece_radius_tenths: [2u32, 4u32, 6u32, 8u32],
            piece_fill_color: [
                Rgb { red: 85, green: 85, blue: 85 },
                Rgb { red: 250, green: 250, blue: 250 },
            ],
            piece_stroke: StrokeSpec { width: 2, color: Rgb { red: 30, green: 30, blue: 30 } },
            selected_piece_stroke: StrokeSpec {
                width: 2,
                color: Rgb { red: 255, green: 0, blue: 0 },
            },
            available_move_radius_tenths: 1,
            available_move_color: Rgb { red: 160, green: 160, blue: 160 },
        }
    }
}

} // verus!
