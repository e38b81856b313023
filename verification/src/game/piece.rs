use vstd::prelude::*;

verus! {

/// A Quarto piece: four independent binary attributes (color, shape, height,
/// surface), each 0 or 1. The sixteen combinations form the whole domain;
/// a piece is a value with no identity beyond its attribute tuple.
#[derive(Copy, Clone, Debug, PartialEq, Eq, Structural)]
pub struct Piece {
    pub color: u8,
    pub shape: u8,
    pub height: u8,
    pub surface: u8,
}

impl Piece {
    /// The attribute selected by index: 0 color, 1 shape, 2 height, 3 surface.
    pub open spec fn attr(self, a: int) -> u8 {
        if a == 0 {
            self.color
        } else if a == 1 {
            self.shape
        } else if a == 2 {
            self.height
        } else {
            self.surface
        }
    }

    /// Every attribute lies in {0, 1}.
    pub open spec fn wf(self) -> bool {
        self.color < 2 && self.shape < 2 && self.height < 2 && self.surface < 2
    }

    pub fn new(color: u8, shape: u8, height: u8, surface: u8) -> (r: Piece)
        requires
            color < 2,
            shape < 2,
            height < 2,
            surface < 2,
        ensures
            r.color == color,
            r.shape == shape,
            r.height == height,
            r.surface == surface,
            r.wf(),
    {
        Piece { color, shape, height, surface }
    }

    pub fn color(&self) -> (r: u8)
        ensures
            r == self.color,
    {
        self.color
    }

    pub fn shape(&self) -> (r: u8)
        ensures
            r == self.shape,
    {
        self.shape
    }

    pub fn height(&self) -> (r: u8)
        ensures
            r == self.height,
    {
        self.height
    }

    pub fn surface(&self) -> (r: u8)
        ensures
            r == self.surface,
    {
        self.surface
    }
}

} // verus!
