pub mod action;
pub mod board;
pub mod error;
pub mod piece;
pub mod player;

pub use action::Action;
pub use board::Board;
pub use error::GameError;
pub use piece::Piece;
pub use player::Player;

use vstd::prelude::*;

verus! {

/// The canonical piece with ordinal `i`: the two values of each attribute
/// enumerated with color outermost and surface innermost.
pub open spec fn piece_of_index(i: int) -> Piece {
    Piece {
        color: ((i / 8) % 2) as u8,
        shape: ((i / 4) % 2) as u8,
        height: ((i / 2) % 2) as u8,
        surface: (i % 2) as u8,
    }
}

/// The full set of 16 pieces in canonical order.
pub open spec fn full_piece_seq() -> Seq<Piece> {
    Seq::new(16, |i: int| piece_of_index(i))
}

/// Two ordinals below 16 with the same base-2 digits are equal.
proof fn lemma_ordinal_from_digits(x: u16, y: u16)
    by (bit_vector)
    requires
        x < 16,
        y < 16,
        (x / 8) % 2 == (y / 8) % 2,
        (x / 4) % 2 == (y / 4) % 2,
        (x / 2) % 2 == (y / 2) % 2,
        x % 2 == y % 2,
    ensures
        x == y,
{
}

/// Distinct ordinals name distinct pieces: the ordinal can be reassembled
/// from the four attributes.
proof fn lemma_piece_of_index_injective(i: int, j: int)
    requires
        0 <= i < 16,
        0 <= j < 16,
        piece_of_index(i) == piece_of_index(j),
    ensures
        i == j,
{
    lemma_ordinal_from_digits(i as u16, j as u16);
}

/// The sixteen canonical pieces are pairwise distinct.
proof fn lemma_full_piece_seq_distinct()
    ensures
        forall|i: int, j: int|
            #![trigger full_piece_seq()[i], full_piece_seq()[j]]
            0 <= i < j < 16 ==> full_piece_seq()[i] != full_piece_seq()[j],
{
    assert forall|i: int, j: int|
        #![trigger full_piece_seq()[i], full_piece_seq()[j]]
        0 <= i < j < 16 implies full_piece_seq()[i] != full_piece_seq()[j] by {
        if full_piece_seq()[i] == full_piece_seq()[j] {
            lemma_piece_of_index_injective(i, j);
        }
    }
}

/// Removing one entry from a duplicate-free sequence keeps it duplicate-free,
/// and the removed entry does not appear in the remainder.
proof fn lemma_remove_keeps_distinct(s: Seq<Piece>, i: int)
    requires
        0 <= i < s.len(),
        forall|j: int, k: int| #![trigger s[j], s[k]] 0 <= j < k < s.len() ==> s[j] != s[k],
    ensures
        forall|j: int, k: int|
            #![trigger s.remove(i)[j], s.remove(i)[k]]
            0 <= j < k < s.remove(i).len() ==> s.remove(i)[j] != s.remove(i)[k],
        forall|k: int| 0 <= k < s.remove(i).len() ==> #[trigger] s.remove(i)[k] != s[i],
{
    assert forall|j: int, k: int|
        #![trigger s.remove(i)[j], s.remove(i)[k]]
        0 <= j < k < s.remove(i).len() implies s.remove(i)[j] != s.remove(i)[k] by {
        let mj: int = if j < i {
            j
        } else {
            j + 1
        };
        let mk: int = if k < i {
            k
        } else {
            k + 1
        };
        assert(s.remove(i)[j] == s[mj]);
        assert(s.remove(i)[k] == s[mk]);
        assert(s[mj] != s[mk]);
    }
    assert forall|k: int| 0 <= k < s.remove(i).len() implies #[trigger] s.remove(i)[k] != s[i] by {
        let mk: int = if k < i {
            k
        } else {
            k + 1
        };
        assert(s.remove(i)[k] == s[mk]);
        if mk < i {
            assert(s[mk] != s[i]);
        } else {
            assert(s[i] != s[mk]);
        }
    }
}

/// The actions that place at `cell`: one per pool index in ascending order,
/// or a single handoff-free action when the pool is empty.
pub open spec fn actions_for_cell(cell: (usize, usize), npool: int) -> Seq<Action> {
    if npool == 0 {
        seq![Action { row: cell.0, col: cell.1, piece_index: None }]
    } else {
        Seq::new(
            npool as nat,
            |p: int| Action { row: cell.0, col: cell.1, piece_index: Some(p as usize) },
        )
    }
}

/// The actions of all cells of `avail` from position `t` on, in order.
pub open spec fn actions_from(avail: Seq<(usize, usize)>, npool: int, t: int) -> Seq<Action>
    decreases avail.len() - t,
{
    if t < 0 || t >= avail.len() {
        Seq::empty()
    } else {
        actions_for_cell(avail[t], npool) + actions_from(avail, npool, t + 1)
    }
}

/// The turn state of one game: the board, the ordered pool of unused pieces,
/// the piece the active player must place this turn, and the active player.
/// The selected piece is never a member of the pool: it has already been
/// handed over. The active player flips inside `play_turn` — that is the one
/// frozen rule for the whole engine — so after a turn `current_player` is the
/// player about to move, and a win belongs to the player prior to the most
/// recent flip.
#[derive(Debug, Clone)]
pub struct Game {
    pub board: Board,
    pub available_pieces: Vec<Piece>,
    pub selected_piece: Piece,
    pub current_player: Player,
}

impl Game {
    /// `a` names an empty cell with in-range coordinates, and carries a
    /// handoff index exactly when the pool is non-empty, in bounds.
    pub open spec fn action_valid(self, a: Action) -> bool {
        a.row < 4 && a.col < 4 && !self.board.cell_occupied(4 * a.row + a.col) && match a.piece_index {
            Some(i) => i < self.available_pieces@.len(),
            None => self.available_pieces@.len() == 0,
        }
    }

    /// The game has reached a terminal state: a winning line or a full board.
    pub open spec fn spec_game_over(self) -> bool {
        self.board.spec_win() || !self.board.has_empty_cell()
    }

    /// The pieces still in play are pairwise distinct, and none of them is
    /// the selected piece: each of the 16 pieces is in play at most once,
    /// and the selected piece has left the pool.
    pub open spec fn pieces_wf(self) -> bool {
        (forall|j: int, k: int|
            #![trigger self.available_pieces@[j], self.available_pieces@[k]]
            0 <= j < k < self.available_pieces@.len() ==> self.available_pieces@[j]
                != self.available_pieces@[k]) && (forall|k: int|
            0 <= k < self.available_pieces@.len() ==> #[trigger] self.available_pieces@[k]
                != self.selected_piece)
    }

    /// Placing the selected piece at cell `i` and handing over `q` leaves
    /// the opponent no cell that wins with `q`.
    pub open spec fn pair_is_safe(self, i: int, q: Piece) -> bool {
        forall|j: int|
            0 <= j < 16 ==> !self.board.spec_place(i, self.selected_piece).wins_at(q, j)
    }

    /// Some legal (cell, handoff) pair denies the opponent a next-turn win.
    pub open spec fn safe_pair_exists(self) -> bool {
        exists|i: int, k: int|
            #![trigger self.pair_is_safe(i, self.available_pieces@[k])]
            0 <= i < 16 && !self.board.cell_occupied(i) && 0 <= k < self.available_pieces@.len()
                && self.pair_is_safe(i, self.available_pieces@[k])
    }

    /// A fresh game: empty board, one of the 16 pieces drawn at random as the
    /// initial selected piece, the other 15 in the pool in canonical order,
    /// Player1 to move.
    pub fn new() -> (r: Game)
        ensures
            forall|i: int| 0 <= i < 16 ==> !r.board.cell_occupied(i),
            r.board.wf(),
            r.board.avail_seq().len() == 16,
            !r.board.spec_win(),
            r.board.has_empty_cell(),
            r.available_pieces@.len() == 15,
            r.current_player == Player::Player1,
            r.pieces_wf(),
            exists|i: int|
                0 <= i < 16 && r.selected_piece == piece_of_index(i) && r.available_pieces@
                    == full_piece_seq().remove(i),
    {
        let mut pieces = Self::create_pieces();
        let idx = crate::rng::random_below(16);
        let selected = pieces.remove(idx);
        proof {
            assert(0 <= idx < 16 && selected == piece_of_index(idx as int) && pieces@
                == full_piece_seq().remove(idx as int));
            lemma_full_piece_seq_distinct();
            lemma_remove_keeps_distinct(full_piece_seq(), idx as int);
            assert(selected == full_piece_seq()[idx as int]);
        }
        Game {
            board: Board::new(),
            available_pieces: pieces,
            selected_piece: selected,
            current_player: Player::Player1,
        }
    }

    /// All 16 pieces, one per attribute combination, in canonical order.
    pub fn create_pieces() -> (r: Vec<Piece>)
        ensures
            r@ == full_piece_seq(),
    {
        let mut pieces: Vec<Piece> = Vec::new();
        let mut i: usize = 0;
        while i < 16
            invariant
                i <= 16,
                pieces@.len() == i,
                forall|j: int| 0 <= j < i ==> pieces@[j] == piece_of_index(j),
            decreases 16 - i,
        {
            let color: u8 = ((i / 8) % 2) as u8;
            let shape: u8 = ((i / 4) % 2) as u8;
            let height: u8 = ((i / 2) % 2) as u8;
            let surface: u8 = (i % 2) as u8;
            pieces.push(Piece::new(color, shape, height, surface));
            i = i + 1;
        }
        proof {
            assert(pieces@ =~= full_piece_seq());
        }
        pieces
    }

    /// An independent copy, for hypothetical exploration: policies never
    /// mutate the canonical game they were handed.
    pub fn duplicate(&self) -> (r: Game)
        ensures
            r.board == self.board,
            r.available_pieces@ == self.available_pieces@,
            r.selected_piece == self.selected_piece,
            r.current_player == self.current_player,
    {
        let mut pool: Vec<Piece> = Vec::new();
        let mut i: usize = 0;
        while i < self.available_pieces.len()
            invariant
                i <= self.available_pieces@.len(),
                pool@.len() == i,
                forall|j: int| 0 <= j < i ==> pool@[j] == self.available_pieces@[j],
            decreases self.available_pieces@.len() - i,
        {
            pool.push(self.available_pieces[i]);
            i = i + 1;
        }
        proof {
            assert(pool@ =~= self.available_pieces@);
        }
        Game {
            board: self.board,
            available_pieces: pool,
            selected_piece: self.selected_piece,
            current_player: self.current_player,
        }
    }

    /// Plays one turn: places the selected piece at (row, col), takes the
    /// piece at `piece_index` out of the pool as the new selected piece
    /// (`None` is allowed only once the pool is empty), and flips the active
    /// player. Any failure leaves the game unchanged.
    pub fn play_turn(&mut self, row: usize, col: usize, piece_index: Option<usize>) -> (r: Result<
        (),
        GameError,
    >)
        ensures
            !(row < 4 && col < 4) ==> r == Err::<(), GameError>(GameError::InvalidCoordinate)
                && *final(self) == *old(self),
            row < 4 && col < 4 && old(self).board.cell_occupied(4 * row + col) ==> r == Err::<
                (),
                GameError,
            >(GameError::OccupiedCell) && *final(self) == *old(self),
            row < 4 && col < 4 && !old(self).board.cell_occupied(4 * row + col) && (piece_index
                matches Some(i) && i >= old(self).available_pieces@.len()) ==> r == Err::<
                (),
                GameError,
            >(GameError::InvalidPieceIndex) && *final(self) == *old(self),
            row < 4 && col < 4 && !old(self).board.cell_occupied(4 * row + col) && piece_index
                is None && old(self).available_pieces@.len() > 0 ==> r == Err::<(), GameError>(
                GameError::PreconditionViolated,
            ) && *final(self) == *old(self),
            row < 4 && col < 4 && !old(self).board.cell_occupied(4 * row + col) && (match piece_index {
                Some(i) => i < old(self).available_pieces@.len(),
                None => old(self).available_pieces@.len() == 0,
            }) ==> r == Ok::<(), GameError>(())
                && final(self).board == old(self).board.spec_place(4 * row + col, old(self).selected_piece)
                && final(self).current_player == old(self).current_player.spec_other()
                && (match piece_index {
                    Some(i) => final(self).selected_piece == old(self).available_pieces@[i as int]
                        && final(self).available_pieces@ == old(self).available_pieces@.remove(i as int),
                    None => final(self).selected_piece == old(self).selected_piece
                        && final(self).available_pieces@ == old(self).available_pieces@,
                })
                && final(self).board.avail_seq().len() == old(self).board.avail_seq().len() - 1
                && (old(self).board.wf() ==> final(self).board.wf()),
            old(self).pieces_wf() ==> final(self).pieces_wf(),
    {
        let mut new_board: Board = self.board;
        let placed = new_board.place_piece(row, col, self.selected_piece);
        match placed {
            Err(e) => {
                return Err(e);
            },
            Ok(_) => {},
        }
        proof {
            crate::game::board::lemma_place_decrements_available(
                self.board,
                4 * row + col,
                self.selected_piece,
            );
        }
        match piece_index {
            Some(i) => {
                if i >= self.available_pieces.len() {
                    return Err(GameError::InvalidPieceIndex);
                }
                self.board = new_board;
                self.selected_piece = self.available_pieces.remove(i);
                proof {
                    if old(self).pieces_wf() {
                        lemma_remove_keeps_distinct(old(self).available_pieces@, i as int);
                    }
                }
            },
            None => {
                if self.available_pieces.len() > 0 {
                    return Err(GameError::PreconditionViolated);
                }
                self.board = new_board;
            },
        }
        self.switch_player();
        Ok(())
    }

    /// Flips the active player.
    pub fn switch_player(&mut self)
        ensures
            final(self).current_player == old(self).current_player.spec_other(),
            final(self).board == old(self).board,
            final(self).available_pieces@ == old(self).available_pieces@,
            final(self).selected_piece == old(self).selected_piece,
    {
        self.current_player = self.current_player.other();
    }

    /// The game is over: a line is won or the board is full.
    pub fn is_game_over(&self) -> (r: bool)
        ensures
            r == self.spec_game_over(),
    {
        self.board.check_win() || self.board.is_full()
    }

    /// The outcome once the game is over. With a winning line on the board
    /// the winner is the player who placed the winning piece — the player
    /// prior to the most recent switch, not the current one; with a merely
    /// full board there is no winner (a draw).
    pub fn judge_winner(&self) -> (r: Option<Player>)
        requires
            self.spec_game_over(),
        ensures
            self.board.spec_win() ==> r == Some(self.current_player.spec_other()),
            !self.board.spec_win() ==> r is None,
    {
        if self.board.check_win() {
            match self.current_player {
                Player::Player1 => Some(Player::Player2),
                Player::Player2 => Some(Player::Player1),
            }
        } else {
            None
        }
    }

    /// Every legal (cell, handoff) pair: the empty cells in row-major order
    /// and, for each, every pool index in ascending order — or a single
    /// handoff-free action per cell once the pool is empty.
    pub fn available_actions(&self) -> (r: Vec<Action>)
        ensures
            r@ == actions_from(self.board.avail_seq(), self.available_pieces@.len() as int, 0),
            forall|k: int| 0 <= k < r@.len() ==> self.action_valid(#[trigger] r@[k]),
            (r@.len() > 0) == self.board.has_empty_cell(),
    {
        let positions = self.board.available_positions();
        let ghost npool = self.available_pieces@.len() as int;
        let ghost total = actions_from(positions@, npool, 0);
        let mut actions: Vec<Action> = Vec::new();
        let mut t: usize = 0;
        while t < positions.len()
            invariant
                t <= positions@.len(),
                positions@ == self.board.avail_seq(),
                npool == self.available_pieces@.len() as int,
                total == actions_from(positions@, npool, 0),
                actions@ + actions_from(positions@, npool, t as int) == total,
                forall|u: int|
                    0 <= u < positions@.len() ==> (#[trigger] positions@[u]).0 < 4
                        && positions@[u].1 < 4 && !self.board.cell_occupied(
                        4 * (positions@[u].0 as int) + positions@[u].1,
                    ),
                forall|k: int| 0 <= k < actions@.len() ==> self.action_valid(#[trigger] actions@[k]),
                t == 0 ==> actions@.len() == 0,
                t > 0 ==> actions@.len() > 0,
            decreases positions@.len() - t,
        {
            let cell = positions[t];
            let ghost before = actions@;
            if self.available_pieces.len() == 0 {
                actions.push(Action { row: cell.0, col: cell.1, piece_index: None });
                proof {
                    assert(actions@ =~= before + actions_for_cell(cell, npool));
                }
            } else {
                let mut p: usize = 0;
                while p < self.available_pieces.len()
                    invariant
                        p <= self.available_pieces@.len(),
                        npool == self.available_pieces@.len() as int,
                        self.available_pieces@.len() > 0,
                        cell.0 < 4,
                        cell.1 < 4,
                        !self.board.cell_occupied(4 * (cell.0 as int) + cell.1),
                        actions@.len() == before.len() + p,
                        forall|j: int| 0 <= j < before.len() ==> actions@[j] == before[j],
                        forall|j: int|
                            0 <= j < p ==> (#[trigger] actions@[before.len() + j]) == (Action {
                                row: cell.0,
                                col: cell.1,
                                piece_index: Some(j as usize),
                            }),
                        forall|k: int|
                            0 <= k < actions@.len() ==> self.action_valid(#[trigger] actions@[k]),
                        p > 0 ==> actions@.len() > 0,
                    decreases self.available_pieces@.len() - p,
                {
                    actions.push(Action { row: cell.0, col: cell.1, piece_index: Some(p) });
                    p = p + 1;
                }
                proof {
                    assert forall|i: int| 0 <= i < actions@.len() implies actions@[i] == (before
                        + actions_for_cell(cell, npool))[i] by {
                        if i >= before.len() {
                            let j = i - before.len();
                            assert(actions@[before.len() + j] == (Action {
                                row: cell.0,
                                col: cell.1,
                                piece_index: Some(j as usize),
                            }));
                        }
                    }
                    assert(actions@ =~= before + actions_for_cell(cell, npool));
                }
            }
            proof {
                assert(before + actions_from(positions@, npool, t as int) == total);
                assert(actions_from(positions@, npool, t as int) == actions_for_cell(cell, npool)
                    + actions_from(positions@, npool, t + 1));
                assert((before + actions_for_cell(cell, npool)) + actions_from(
                    positions@,
                    npool,
                    t + 1,
                ) =~= before + (actions_for_cell(cell, npool) + actions_from(
                    positions@,
                    npool,
                    t + 1,
                )));
            }
            t = t + 1;
        }
        proof {
            assert(actions@ + actions_from(positions@, npool, t as int) =~= actions@);
        }
        actions
    }
}

} // verus!
