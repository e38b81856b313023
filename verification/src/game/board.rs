use vstd::prelude::*;

use crate::game::error::GameError;
use crate::game::piece::Piece;

verus! {

/// True when bit `i` of `m` is set.
pub open spec fn mask_bit(m: u16, i: u16) -> bool {
    (m >> i) & 1u16 == 1u16
}

/// The bitmask of line `l`: lines 0 to 3 are the rows, 4 to 7 the columns,
/// 8 and 9 the two diagonals.
pub open spec fn line_mask(l: int) -> u16 {
    if l == 0 {
        0x000F
    } else if l == 1 {
        0x00F0
    } else if l == 2 {
        0x0F00
    } else if l == 3 {
        0xF000
    } else if l == 4 {
        0x1111
    } else if l == 5 {
        0x2222
    } else if l == 6 {
        0x4444
    } else if l == 7 {
        0x8888
    } else if l == 8 {
        0x1248
    } else {
        0x8421
    }
}

/// The cell index (row * 4 + col) of the k-th cell of line `l`.
pub open spec fn line_cell(l: int, k: int) -> int {
    if l < 4 {
        4 * l + k
    } else if l < 8 {
        (l - 4) + 4 * k
    } else if l == 8 {
        3 + 3 * k
    } else {
        5 * k
    }
}

/// A 4x4 Quarto board held as five 16-bit masks: one marking the empty
/// cells, and one per attribute marking the occupied cells whose piece has
/// that attribute equal to 0. Cell (row, col) is bit `row * 4 + col`.
/// Externally the board reads as a 4x4 grid of optional pieces (`grid`,
/// `cell_at`); the masks are an internal encoding.
#[derive(Copy, Clone, Debug, PartialEq, Eq, Structural)]
pub struct Board {
    pub color_board: u16,
    pub shape_board: u16,
    pub height_board: u16,
    pub surface_board: u16,
    pub empty_cells: u16,
}

impl Board {
    /// The mask that records where attribute `a` equals zero.
    pub open spec fn attr_board(self, a: int) -> u16 {
        if a == 0 {
            self.color_board
        } else if a == 1 {
            self.shape_board
        } else if a == 2 {
            self.height_board
        } else {
            self.surface_board
        }
    }

    /// Cell `i` holds a piece (its empty bit is clear).
    pub open spec fn cell_occupied(self, i: int) -> bool {
        !mask_bit(self.empty_cells, i as u16)
    }

    /// Some cell is still empty.
    pub open spec fn has_empty_cell(self) -> bool {
        exists|i: int| 0 <= i < 16 && !self.cell_occupied(i)
    }

    /// The piece the attribute masks encode at cell `i`: a set bit means the
    /// attribute is 0, a clear bit means 1. Meaningful for occupied cells.
    pub open spec fn piece_at(self, i: int) -> Piece {
        Piece {
            color: if mask_bit(self.color_board, i as u16) {
                0
            } else {
                1
            },
            shape: if mask_bit(self.shape_board, i as u16) {
                0
            } else {
                1
            },
            height: if mask_bit(self.height_board, i as u16) {
                0
            } else {
                1
            },
            surface: if mask_bit(self.surface_board, i as u16) {
                0
            } else {
                1
            },
        }
    }

    /// The externally observable content of cell `i`.
    pub open spec fn spec_cell(self, i: int) -> Option<Piece> {
        if self.cell_occupied(i) {
            Some(self.piece_at(i))
        } else {
            None
        }
    }

    /// All four cells of line `l` are occupied.
    pub open spec fn line_complete(self, l: int) -> bool {
        self.cell_occupied(line_cell(l, 0)) && self.cell_occupied(line_cell(l, 1))
            && self.cell_occupied(line_cell(l, 2)) && self.cell_occupied(line_cell(l, 3))
    }

    /// The four pieces of line `l` share one value of attribute `a`.
    pub open spec fn line_same_attr(self, l: int, a: int) -> bool {
        self.piece_at(line_cell(l, 1)).attr(a) == self.piece_at(line_cell(l, 0)).attr(a)
            && self.piece_at(line_cell(l, 2)).attr(a) == self.piece_at(line_cell(l, 0)).attr(a)
            && self.piece_at(line_cell(l, 3)).attr(a) == self.piece_at(line_cell(l, 0)).attr(a)
    }

    /// Line `l` wins: all four cells occupied and uniform in some attribute.
    pub open spec fn line_won(self, l: int) -> bool {
        self.line_complete(l) && (self.line_same_attr(l, 0) || self.line_same_attr(l, 1)
            || self.line_same_attr(l, 2) || self.line_same_attr(l, 3))
    }

    /// Some of the ten lines wins: a brute-force scan over rows, columns and
    /// diagonals.
    pub open spec fn spec_win(self) -> bool {
        exists|l: int| 0 <= l < 10 && self.line_won(l)
    }

    /// Attribute bits are recorded only on occupied cells.
    pub open spec fn wf(self) -> bool {
        self.color_board & self.empty_cells == 0 && self.shape_board & self.empty_cells == 0
            && self.height_board & self.empty_cells == 0 && self.surface_board & self.empty_cells
            == 0
    }

    /// The board after placing `p` at cell `i`: the empty bit is cleared and
    /// each attribute mask gains the bit exactly when that attribute of `p`
    /// equals zero.
    pub open spec fn spec_place(self, i: int, p: Piece) -> Board {
        Board {
            color_board: if p.color == 0 {
                self.color_board | (1u16 << (i as u16))
            } else {
                self.color_board
            },
            shape_board: if p.shape == 0 {
                self.shape_board | (1u16 << (i as u16))
            } else {
                self.shape_board
            },
            height_board: if p.height == 0 {
                self.height_board | (1u16 << (i as u16))
            } else {
                self.height_board
            },
            surface_board: if p.surface == 0 {
                self.surface_board | (1u16 << (i as u16))
            } else {
                self.surface_board
            },
            empty_cells: self.empty_cells & !(1u16 << (i as u16)),
        }
    }

    /// Placing `p` at cell `i` is legal and produces a winning line.
    pub open spec fn wins_at(self, p: Piece, i: int) -> bool {
        0 <= i < 16 && !self.cell_occupied(i) && self.spec_place(i, p).spec_win()
    }

    /// The empty cells with index `j` or higher, in ascending (row-major)
    /// order, as (row, col) pairs.
    pub open spec fn avail_from(self, j: int) -> Seq<(usize, usize)>
        decreases 16 - j,
    {
        if !(0 <= j < 16) {
            Seq::empty()
        } else if !self.cell_occupied(j) {
            seq![((j / 4) as usize, (j % 4) as usize)] + self.avail_from(j + 1)
        } else {
            self.avail_from(j + 1)
        }
    }

    /// All empty cells in ascending (row-major) order.
    pub open spec fn avail_seq(self) -> Seq<(usize, usize)> {
        self.avail_from(0)
    }
}

proof fn lemma_bits4(m: u16, c0: u16, c1: u16, c2: u16, c3: u16, x: u16)
    by (bit_vector)
    requires
        c0 < 16,
        c1 < 16,
        c2 < 16,
        c3 < 16,
        m == (1u16 << c0) | (1u16 << c1) | (1u16 << c2) | (1u16 << c3),
    ensures
        (x & m == 0) == (!mask_bit(x, c0) && !mask_bit(x, c1) && !mask_bit(x, c2) && !mask_bit(
            x,
            c3,
        )),
        (x & m == m) == (mask_bit(x, c0) && mask_bit(x, c1) && mask_bit(x, c2) && mask_bit(x, c3)),
{
}

proof fn lemma_update_bit(m: u16, p: u16, j: u16)
    by (bit_vector)
    requires
        p < 16,
        j < 16,
    ensures
        mask_bit(m | (1u16 << p), j) == (j == p || mask_bit(m, j)),
        mask_bit(m & !(1u16 << p), j) == (j != p && mask_bit(m, j)),
{
}

proof fn lemma_bit_test(m: u16, i: u16)
    by (bit_vector)
    requires
        i < 16,
    ensures
        (m & (1u16 << i) == 0) == !mask_bit(m, i),
{
}

proof fn lemma_const_bits(j: u16)
    by (bit_vector)
    requires
        j < 16,
    ensures
        mask_bit(0xFFFFu16, j),
        !mask_bit(0u16, j),
{
}

proof fn lemma_wf_after_place(attr: u16, e: u16, p: u16)
    by (bit_vector)
    requires
        attr & e == 0,
        p < 16,
    ensures
        (attr | (1u16 << p)) & (e & !(1u16 << p)) == 0,
        attr & (e & !(1u16 << p)) == 0,
{
}

proof fn lemma_nonzero_has_bit(e: u16)
    by (bit_vector)
    ensures
        (e != 0) == (mask_bit(e, 0) || mask_bit(e, 1) || mask_bit(e, 2) || mask_bit(e, 3)
            || mask_bit(e, 4) || mask_bit(e, 5) || mask_bit(e, 6) || mask_bit(e, 7) || mask_bit(
            e,
            8,
        ) || mask_bit(e, 9) || mask_bit(e, 10) || mask_bit(e, 11) || mask_bit(e, 12) || mask_bit(
            e,
            13,
        ) || mask_bit(e, 14) || mask_bit(e, 15)),
{
}

proof fn lemma_zero_and()
    by (bit_vector)
    ensures
        0u16 & 0xFFFFu16 == 0,
{
}

proof fn lemma_mask_constants()
    by (bit_vector)
    ensures
        (1u16 << 0) | (1u16 << 1) | (1u16 << 2) | (1u16 << 3) == 0x000Fu16,
        (1u16 << 4) | (1u16 << 5) | (1u16 << 6) | (1u16 << 7) == 0x00F0u16,
        (1u16 << 8) | (1u16 << 9) | (1u16 << 10) | (1u16 << 11) == 0x0F00u16,
        (1u16 << 12) | (1u16 << 13) | (1u16 << 14) | (1u16 << 15) == 0xF000u16,
        (1u16 << 0) | (1u16 << 4) | (1u16 << 8) | (1u16 << 12) == 0x1111u16,
        (1u16 << 1) | (1u16 << 5) | (1u16 << 9) | (1u16 << 13) == 0x2222u16,
        (1u16 << 2) | (1u16 << 6) | (1u16 << 10) | (1u16 << 14) == 0x4444u16,
        (1u16 << 3) | (1u16 << 7) | (1u16 << 11) | (1u16 << 15) == 0x8888u16,
        (1u16 << 3) | (1u16 << 6) | (1u16 << 9) | (1u16 << 12) == 0x1248u16,
        (1u16 << 0) | (1u16 << 5) | (1u16 << 10) | (1u16 << 15) == 0x8421u16,
{
}

/// The mask of line `l` is the union of the single-bit masks of its four
/// cells, and those cells lie in [0, 16).
proof fn lemma_line_structure(l: int)
    requires
        0 <= l < 10,
    ensures
        0 <= line_cell(l, 0) < 16,
        0 <= line_cell(l, 1) < 16,
        0 <= line_cell(l, 2) < 16,
        0 <= line_cell(l, 3) < 16,
        line_mask(l) == (1u16 << (line_cell(l, 0) as u16)) | (1u16 << (line_cell(l, 1) as u16)) | (
        1u16 << (line_cell(l, 2) as u16)) | (1u16 << (line_cell(l, 3) as u16)),
{
    lemma_mask_constants();
}

/// Bridges the mask-level line test to the cell-level win statement.
proof fn lemma_line_check(b: Board, l: int)
    requires
        0 <= l < 10,
    ensures
        (b.empty_cells & line_mask(l) == 0) == b.line_complete(l),
        (b.color_board & line_mask(l) == 0 || b.color_board & line_mask(l) == line_mask(l))
            == b.line_same_attr(l, 0),
        (b.shape_board & line_mask(l) == 0 || b.shape_board & line_mask(l) == line_mask(l))
            == b.line_same_attr(l, 1),
        (b.height_board & line_mask(l) == 0 || b.height_board & line_mask(l) == line_mask(l))
            == b.line_same_attr(l, 2),
        (b.surface_board & line_mask(l) == 0 || b.surface_board & line_mask(l) == line_mask(l))
            == b.line_same_attr(l, 3),
{
    lemma_line_structure(l);
    let c0: u16 = line_cell(l, 0) as u16;
    let c1: u16 = line_cell(l, 1) as u16;
    let c2: u16 = line_cell(l, 2) as u16;
    let c3: u16 = line_cell(l, 3) as u16;
    lemma_bits4(line_mask(l), c0, c1, c2, c3, b.empty_cells);
    lemma_bits4(line_mask(l), c0, c1, c2, c3, b.color_board);
    lemma_bits4(line_mask(l), c0, c1, c2, c3, b.shape_board);
    lemma_bits4(line_mask(l), c0, c1, c2, c3, b.height_board);
    lemma_bits4(line_mask(l), c0, c1, c2, c3, b.surface_board);
}

/// Placing a piece occupies the target cell and leaves every other cell's
/// occupancy and encoded piece unchanged.
pub proof fn lemma_place_cells(b: Board, i: int, p: Piece)
    requires
        0 <= i < 16,
    ensures
        forall|j: int|
            0 <= j < 16 ==> #[trigger] b.spec_place(i, p).cell_occupied(j) == (j == i
                || b.cell_occupied(j)),
        forall|j: int|
            0 <= j < 16 && j != i ==> #[trigger] b.spec_place(i, p).piece_at(j) == b.piece_at(j),
{
    assert forall|j: int| 0 <= j < 16 implies #[trigger] b.spec_place(i, p).cell_occupied(j) == (j
        == i || b.cell_occupied(j)) by {
        lemma_update_bit(b.empty_cells, i as u16, j as u16);
    }
    assert forall|j: int| 0 <= j < 16 && j != i implies #[trigger] b.spec_place(i, p).piece_at(j)
        == b.piece_at(j) by {
        lemma_update_bit(b.color_board, i as u16, j as u16);
        lemma_update_bit(b.shape_board, i as u16, j as u16);
        lemma_update_bit(b.height_board, i as u16, j as u16);
        lemma_update_bit(b.surface_board, i as u16, j as u16);
    }
}

proof fn lemma_disjoint_bit(a: u16, e: u16, i: u16)
    by (bit_vector)
    requires
        a & e == 0,
        i < 16,
    ensures
        mask_bit(e, i) ==> !mask_bit(a, i),
{
}

/// Placing a piece on an empty cell of a well-formed board and reading that
/// cell back through the grid view recovers exactly the piece placed.
pub proof fn lemma_place_recovers_piece(b: Board, i: int, p: Piece)
    requires
        0 <= i < 16,
        !b.cell_occupied(i),
        b.wf(),
        p.wf(),
    ensures
        b.spec_place(i, p).spec_cell(i) == Some(p),
{
    lemma_update_bit(b.empty_cells, i as u16, i as u16);
    lemma_update_bit(b.color_board, i as u16, i as u16);
    lemma_update_bit(b.shape_board, i as u16, i as u16);
    lemma_update_bit(b.height_board, i as u16, i as u16);
    lemma_update_bit(b.surface_board, i as u16, i as u16);
    lemma_disjoint_bit(b.color_board, b.empty_cells, i as u16);
    lemma_disjoint_bit(b.shape_board, b.empty_cells, i as u16);
    lemma_disjoint_bit(b.height_board, b.empty_cells, i as u16);
    lemma_disjoint_bit(b.surface_board, b.empty_cells, i as u16);
}

/// Element-wise description of the available-position sequence: every entry
/// is an empty cell at index `j` or higher with coordinates below 4, and the
/// sequence is empty exactly when no such cell exists.
proof fn lemma_avail_from_props(b: Board, j: int)
    requires
        0 <= j <= 16,
    ensures
        forall|t: int|
            0 <= t < b.avail_from(j).len() ==> (#[trigger] b.avail_from(j)[t]).0 < 4
                && b.avail_from(j)[t].1 < 4 && j <= 4 * (b.avail_from(j)[t].0 as int)
                + b.avail_from(j)[t].1 < 16 && !b.cell_occupied(
                4 * (b.avail_from(j)[t].0 as int) + b.avail_from(j)[t].1,
            ),
        (b.avail_from(j).len() == 0) == (forall|i: int| j <= i < 16 ==> b.cell_occupied(i)),
        forall|i: int|
            j <= i < 16 && !b.cell_occupied(i) ==> b.avail_from(j).contains(
                (((i / 4) as usize), ((i % 4) as usize)),
            ),
    decreases 16 - j,
{
    if !(0 <= j < 16) {
    } else {
        lemma_avail_from_props(b, j + 1);
        assert forall|i: int|
            j <= i < 16 && !b.cell_occupied(i) implies b.avail_from(j).contains(
            (((i / 4) as usize), ((i % 4) as usize)),
        ) by {
            let x: (usize, usize) = (((i / 4) as usize), ((i % 4) as usize));
            if !b.cell_occupied(j) {
                let head: (usize, usize) = (((j / 4) as usize), ((j % 4) as usize));
                assert(b.avail_from(j) == seq![head] + b.avail_from(j + 1));
                if i == j {
                    assert(b.avail_from(j)[0] == x);
                } else {
                    assert(b.avail_from(j + 1).contains(x));
                    let t = choose|t: int|
                        0 <= t < b.avail_from(j + 1).len() && #[trigger] b.avail_from(j + 1)[t]
                            == x;
                    assert(b.avail_from(j)[t + 1] == x);
                }
            } else {
                assert(i != j);
                assert(b.avail_from(j) == b.avail_from(j + 1));
                assert(b.avail_from(j + 1).contains(x));
            }
        }
        if b.cell_occupied(j) {
            assert(b.avail_from(j) == b.avail_from(j + 1));
            if b.avail_from(j).len() == 0 {
                assert forall|i: int| j <= i < 16 implies b.cell_occupied(i) by {
                    if i != j {
                        assert(j + 1 <= i < 16);
                    }
                }
            }
        }
        if !b.cell_occupied(j) {
            let head: (usize, usize) = (((j / 4) as usize), ((j % 4) as usize));
            assert(b.avail_from(j) == seq![head] + b.avail_from(j + 1));
            assert(4 * (head.0 as int) + head.1 == j);
            assert forall|t: int| 0 <= t < b.avail_from(j).len() implies (#[trigger] b.avail_from(
                j,
            )[t]).0 < 4 && b.avail_from(j)[t].1 < 4 && j <= 4 * (b.avail_from(j)[t].0 as int)
                + b.avail_from(j)[t].1 < 16 && !b.cell_occupied(
                4 * (b.avail_from(j)[t].0 as int) + b.avail_from(j)[t].1,
            ) by {
                if t == 0 {
                    assert(b.avail_from(j)[t] == head);
                } else {
                    assert(b.avail_from(j)[t] == b.avail_from(j + 1)[t - 1]);
                }
            }
        }
    }
}

/// Placing a piece at an empty cell removes exactly one entry from the
/// available positions counted from `j` upward.
proof fn lemma_place_avail_from(b: Board, i: int, p: Piece, j: int)
    requires
        0 <= i < 16,
        !b.cell_occupied(i),
        0 <= j <= 16,
    ensures
        b.spec_place(i, p).avail_from(j).len() == if j <= i {
            b.avail_from(j).len() - 1
        } else {
            b.avail_from(j).len() as int
        },
    decreases 16 - j,
{
    lemma_place_cells(b, i, p);
    let bp = b.spec_place(i, p);
    if !(0 <= j < 16) {
    } else {
        lemma_place_avail_from(b, i, p, j + 1);
        if j == i {
            assert(bp.cell_occupied(j));
            assert(bp.avail_from(j) == bp.avail_from(j + 1));
            assert(b.avail_from(j) == seq![(((j / 4) as usize), ((j % 4) as usize))]
                + b.avail_from(j + 1));
        } else if b.cell_occupied(j) {
            assert(bp.cell_occupied(j));
            assert(bp.avail_from(j) == bp.avail_from(j + 1));
            assert(b.avail_from(j) == b.avail_from(j + 1));
        } else {
            assert(!bp.cell_occupied(j));
            assert(bp.avail_from(j) == seq![(((j / 4) as usize), ((j % 4) as usize))]
                + bp.avail_from(j + 1));
            assert(b.avail_from(j) == seq![(((j / 4) as usize), ((j % 4) as usize))]
                + b.avail_from(j + 1));
        }
    }
}

/// The count of available positions drops by exactly one on each legal
/// placement: starting from 16 on the empty board, after n placements
/// exactly 16 - n positions remain.
pub proof fn lemma_place_decrements_available(b: Board, i: int, p: Piece)
    requires
        0 <= i < 16,
        !b.cell_occupied(i),
    ensures
        b.spec_place(i, p).avail_seq().len() == b.avail_seq().len() - 1,
{
    lemma_place_avail_from(b, i, p, 0);
}

/// A board whose cells from `j` upward are all empty has 16 - j available
/// positions from `j` upward.
proof fn lemma_all_empty_avail(b: Board, j: int)
    requires
        0 <= j <= 16,
        forall|i: int| 0 <= i < 16 ==> !b.cell_occupied(i),
    ensures
        b.avail_from(j).len() == 16 - j,
    decreases 16 - j,
{
    if j < 16 {
        lemma_all_empty_avail(b, j + 1);
    }
}

impl Board {
    /// A fresh board: every cell empty, no attribute bits recorded.
    pub fn new() -> (r: Board)
        ensures
            r == (Board {
                color_board: 0u16,
                shape_board: 0u16,
                height_board: 0u16,
                surface_board: 0u16,
                empty_cells: 0xFFFFu16,
            }),
            forall|i: int| 0 <= i < 16 ==> !r.cell_occupied(i),
            r.wf(),
            r.avail_seq().len() == 16,
            !r.spec_win(),
            r.has_empty_cell(),
    {
        let r = Board {
            color_board: 0,
            shape_board: 0,
            height_board: 0,
            surface_board: 0,
            empty_cells: 0xFFFF,
        };
        proof {
            lemma_zero_and();
            assert forall|i: int| 0 <= i < 16 implies !r.cell_occupied(i) by {
                lemma_const_bits(i as u16);
            }
            lemma_all_empty_avail(r, 0);
            assert forall|l: int| 0 <= l < 10 implies !r.line_won(l) by {
                lemma_line_structure(l);
            }
            assert(!r.cell_occupied(0));
        }
        r
    }

    /// Places `piece` at (row, col). Fails with `InvalidCoordinate` when a
    /// coordinate is outside [0, 4) and with `OccupiedCell` when the target
    /// cell already holds a piece; on failure the board is unchanged.
    pub fn place_piece(&mut self, row: usize, col: usize, piece: Piece) -> (r: Result<
        (),
        GameError,
    >)
        ensures
            !(row < 4 && col < 4) ==> r == Err::<(), GameError>(GameError::InvalidCoordinate)
                && *final(self) == *old(self),
            row < 4 && col < 4 && old(self).cell_occupied(4 * row + col) ==> r == Err::<
                (),
                GameError,
            >(GameError::OccupiedCell) && *final(self) == *old(self),
            row < 4 && col < 4 && !old(self).cell_occupied(4 * row + col) ==> r == Ok::<
                (),
                GameError,
            >(()) && *final(self) == old(self).spec_place(4 * row + col, piece),
            old(self).wf() ==> final(self).wf(),
    {
        if row >= 4 || col >= 4 {
            return Err(GameError::InvalidCoordinate);
        }
        let idx: u16 = (row * 4 + col) as u16;
        let position: u16 = 1u16 << idx;
        proof {
            lemma_bit_test(self.empty_cells, idx);
        }
        if self.empty_cells & position == 0 {
            return Err(GameError::OccupiedCell);
        }
        proof {
            if old(self).wf() {
                lemma_wf_after_place(self.color_board, self.empty_cells, idx);
                lemma_wf_after_place(self.shape_board, self.empty_cells, idx);
                lemma_wf_after_place(self.height_board, self.empty_cells, idx);
                lemma_wf_after_place(self.surface_board, self.empty_cells, idx);
            }
        }
        self.empty_cells = self.empty_cells & !position;
        if piece.color() == 0 {
            self.color_board = self.color_board | position;
        }
        if piece.shape() == 0 {
            self.shape_board = self.shape_board | position;
        }
        if piece.height() == 0 {
            self.height_board = self.height_board | position;
        }
        if piece.surface() == 0 {
            self.surface_board = self.surface_board | position;
        }
        Ok(())
    }

    fn check_line(&self, l: usize) -> (r: bool)
        requires
            l < 10,
        ensures
            r == self.line_won(l as int),
    {
        proof {
            lemma_line_check(*self, l as int);
        }
        let mask: u16 = line_mask_at(l);
        if self.empty_cells & mask != 0 {
            return false;
        }
        let color_match: u16 = self.color_board & mask;
        let shape_match: u16 = self.shape_board & mask;
        let height_match: u16 = self.height_board & mask;
        let surface_match: u16 = self.surface_board & mask;
        color_match == 0 || color_match == mask || shape_match == 0 || shape_match == mask
            || height_match == 0 || height_match == mask || surface_match == 0 || surface_match
            == mask
    }

    /// True exactly when a brute-force scan of the 10 lines finds one whose
    /// four cells are all occupied and share a value of some attribute.
    pub fn check_win(&self) -> (r: bool)
        ensures
            r == self.spec_win(),
    {
        let mut l: usize = 0;
        while l < 10
            invariant
                l <= 10,
                forall|j: int| 0 <= j < l ==> !self.line_won(j),
            decreases 10 - l,
        {
            if self.check_line(l) {
                proof {
                    assert(self.line_won(l as int));
                }
                return true;
            }
            l = l + 1;
        }
        false
    }

    /// True exactly when no cell is empty.
    pub fn is_full(&self) -> (r: bool)
        ensures
            r == !self.has_empty_cell(),
    {
        proof {
            lemma_nonzero_has_bit(self.empty_cells);
            if self.empty_cells == 0 {
                assert forall|i: int| 0 <= i < 16 implies self.cell_occupied(i) by {
                    lemma_const_bits(i as u16);
                }
            } else {
                let e = self.empty_cells;
                if mask_bit(e, 0) {
                    assert(!self.cell_occupied(0));
                } else if mask_bit(e, 1) {
                    assert(!self.cell_occupied(1));
                } else if mask_bit(e, 2) {
                    assert(!self.cell_occupied(2));
                } else if mask_bit(e, 3) {
                    assert(!self.cell_occupied(3));
                } else if mask_bit(e, 4) {
                    assert(!self.cell_occupied(4));
                } else if mask_bit(e, 5) {
                    assert(!self.cell_occupied(5));
                } else if mask_bit(e, 6) {
                    assert(!self.cell_occupied(6));
                } else if mask_bit(e, 7) {
                    assert(!self.cell_occupied(7));
                } else if mask_bit(e, 8) {
                    assert(!self.cell_occupied(8));
                } else if mask_bit(e, 9) {
                    assert(!self.cell_occupied(9));
                } else if mask_bit(e, 10) {
                    assert(!self.cell_occupied(10));
                } else if mask_bit(e, 11) {
                    assert(!self.cell_occupied(11));
                } else if mask_bit(e, 12) {
                    assert(!self.cell_occupied(12));
                } else if mask_bit(e, 13) {
                    assert(!self.cell_occupied(13));
                } else if mask_bit(e, 14) {
                    assert(!self.cell_occupied(14));
                } else {
                    assert(mask_bit(e, 15));
                    assert(!self.cell_occupied(15));
                }
            }
        }
        self.empty_cells == 0
    }

    /// The empty cells in ascending bit-index (row-major) order, as
    /// (row, col) pairs. This ordering is part of the contract: policies use
    /// it for deterministic tie-breaking.
    pub fn available_positions(&self) -> (r: Vec<(usize, usize)>)
        ensures
            r@ == self.avail_seq(),
            forall|t: int|
                0 <= t < r@.len() ==> (#[trigger] r@[t]).0 < 4 && r@[t].1 < 4
                    && !self.cell_occupied(4 * (r@[t].0 as int) + r@[t].1),
            (r@.len() == 0) == !self.has_empty_cell(),
            forall|i: int|
                0 <= i < 16 && !self.cell_occupied(i) ==> r@.contains(
                    (((i / 4) as usize), ((i % 4) as usize)),
                ),
    {
        let mut positions: Vec<(usize, usize)> = Vec::new();
        let mut i: usize = 0;
        while i < 16
            invariant
                i <= 16,
                positions@ + self.avail_from(i as int) == self.avail_seq(),
            decreases 16 - i,
        {
            if (self.empty_cells >> (i as u16)) & 1u16 == 1u16 {
                positions.push((i / 4, i % 4));
                proof {
                    assert(positions@ + self.avail_from(i + 1 as int) =~= self.avail_seq());
                }
            } else {
                proof {
                    assert(positions@ + self.avail_from(i + 1 as int) =~= self.avail_seq());
                }
            }
            i = i + 1;
        }
        proof {
            assert(positions@ =~= self.avail_seq());
            lemma_avail_from_props(*self, 0);
        }
        positions
    }

    /// Looks for the first empty cell, in row-major order, where placing
    /// `piece` completes a line; `None` exactly when no empty cell does.
    pub fn find_winning_cell(&self, piece: Piece) -> (r: Option<(usize, usize)>)
        ensures
            r matches Some(rc) ==> rc.0 < 4 && rc.1 < 4 && self.wins_at(
                piece,
                4 * (rc.0 as int) + rc.1,
            ) && (forall|j: int| 0 <= j < 4 * (rc.0 as int) + rc.1 ==> !self.wins_at(piece, j)),
            r is None ==> forall|j: int| 0 <= j < 16 ==> !self.wins_at(piece, j),
    {
        let mut i: usize = 0;
        while i < 16
            invariant
                i <= 16,
                forall|j: int| 0 <= j < i ==> !self.wins_at(piece, j),
            decreases 16 - i,
        {
            let row: usize = i / 4;
            let col: usize = i % 4;
            let mut hypothetical: Board = *self;
            let placed = hypothetical.place_piece(row, col, piece);
            match placed {
                Ok(_) => {
                    if hypothetical.check_win() {
                        return Some((row, col));
                    }
                },
                Err(_) => {},
            }
            i = i + 1;
        }
        None
    }

    /// The externally observable content of cell (row, col).
    pub fn cell_at(&self, row: usize, col: usize) -> (r: Option<Piece>)
        requires
            row < 4,
            col < 4,
        ensures
            r == self.spec_cell(4 * row + col),
    {
        let idx: u16 = (row * 4 + col) as u16;
        let position: u16 = 1u16 << idx;
        proof {
            lemma_bit_test(self.empty_cells, idx);
            lemma_bit_test(self.color_board, idx);
            lemma_bit_test(self.shape_board, idx);
            lemma_bit_test(self.height_board, idx);
            lemma_bit_test(self.surface_board, idx);
        }
        if self.empty_cells & position == 0 {
            let color: u8 = if self.color_board & position != 0 {
                0
            } else {
                1
            };
            let shape: u8 = if self.shape_board & position != 0 {
                0
            } else {
                1
            };
            let height: u8 = if self.height_board & position != 0 {
                0
            } else {
                1
            };
            let surface: u8 = if self.surface_board & position != 0 {
                0
            } else {
                1
            };
            Some(Piece::new(color, shape, height, surface))
        } else {
            None
        }
    }

    /// The derived grid view: a plain 4x4 array of optional pieces, the only
    /// externally observable shape of the board.
    pub fn grid(&self) -> (g: [[Option<Piece>; 4]; 4])
        ensures
            forall|r: int, c: int|
                0 <= r < 4 && 0 <= c < 4 ==> (#[trigger] g@[r]@[c]) == self.spec_cell(4 * r + c),
    {
        [
            [self.cell_at(0, 0), self.cell_at(0, 1), self.cell_at(0, 2), self.cell_at(0, 3)],
            [self.cell_at(1, 0), self.cell_at(1, 1), self.cell_at(1, 2), self.cell_at(1, 3)],
            [self.cell_at(2, 0), self.cell_at(2, 1), self.cell_at(2, 2), self.cell_at(2, 3)],
            [self.cell_at(3, 0), self.cell_at(3, 1), self.cell_at(3, 2), self.cell_at(3, 3)],
        ]
    }
}

fn line_mask_at(l: usize) -> (r: u16)
    requires
        l < 10,
    ensures
        r == line_mask(l as int),
{
    if l == 0 {
        0x000F
    } else if l == 1 {
        0x00F0
    } else if l == 2 {
        0x0F00
    } else if l == 3 {
        0xF000
    } else if l == 4 {
        0x1111
    } else if l == 5 {
        0x2222
    } else if l == 6 {
        0x4444
    } else if l == 7 {
        0x8888
    } else if l == 8 {
        0x1248
    } else {
        0x8421
    }
}

} // verus!
