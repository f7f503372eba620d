//! A tic-tac-toe board as a pure state machine.
//!
//! The library owns the rules of the game and nothing else: a 3x3 grid of
//! optionally occupied cells, the mark whose turn it is, and the derived
//! outcome (in progress, won, or drawn). A front end drives it by calling
//! [`Game::attempt_move`] and querying [`Game::outcome`] and
//! [`Game::legal_moves`]; rendering and input handling stay outside.

use vstd::prelude::*;

verus! {

/// A placed move: one of the two players.
#[derive(Clone, Copy, Debug, PartialEq, Eq, Structural)]
pub enum Mark {
    X,
    O,
}

/// The mark of the player who moves after `m`.
pub open spec fn spec_other(m: Mark) -> Mark {
    match m {
        Mark::X => Mark::O,
        Mark::O => Mark::X,
    }
}

impl Mark {
    /// The opposing mark.
    pub fn other(self) -> (r: Mark)
        ensures
            r == spec_other(self),
    {
        match self {
            Mark::X => Mark::O,
            Mark::O => Mark::X,
        }
    }
}

/// How the game stands: still open, won by a mark, or drawn.
#[derive(Clone, Copy, Debug, PartialEq, Eq, Structural)]
pub enum Outcome {
    InProgress,
    Won(Mark),
    Draw,
}

/// Why a move was rejected. None of these changes the game.
#[derive(Clone, Copy, Debug, PartialEq, Eq, Structural)]
pub enum MoveError {
    /// The position is not a cell index in `0..9`.
    OutOfBounds,
    /// The targeted cell already holds a mark.
    CellOccupied,
    /// The game has already reached a terminal outcome.
    GameOver,
}

/// Cells `i`, `j` and `k` all hold `m`.
pub open spec fn line_filled(b: Seq<Option<Mark>>, m: Mark, i: int, j: int, k: int) -> bool {
    &&& b[i] == Some(m)
    &&& b[j] == Some(m)
    &&& b[k] == Some(m)
}

/// `m` owns one of the eight lines: three rows, three columns, two diagonals.
pub open spec fn wins(b: Seq<Option<Mark>>, m: Mark) -> bool {
    ||| line_filled(b, m, 0, 1, 2)
    ||| line_filled(b, m, 3, 4, 5)
    ||| line_filled(b, m, 6, 7, 8)
    ||| line_filled(b, m, 0, 3, 6)
    ||| line_filled(b, m, 1, 4, 7)
    ||| line_filled(b, m, 2, 5, 8)
    ||| line_filled(b, m, 0, 4, 8)
    ||| line_filled(b, m, 2, 4, 6)
}

/// How many of the first `n` cells are occupied.
pub open spec fn occupied_upto(b: Seq<Option<Mark>>, n: int) -> int
    decreases n,
{
    if n <= 0 {
        0
    } else {
        occupied_upto(b, n - 1) + if b[n - 1] is Some {
            1int
        } else {
            0int
        }
    }
}

/// How many cells of the board are occupied.
pub open spec fn occupied(b: Seq<Option<Mark>>) -> int {
    occupied_upto(b, 9)
}

/// The empty positions among the first `n`, in ascending index order.
pub open spec fn empties_upto(b: Seq<Option<Mark>>, n: int) -> Seq<usize>
    decreases n,
{
    if n <= 0 {
        Seq::empty()
    } else if b[n - 1] is None {
        empties_upto(b, n - 1).push((n - 1) as usize)
    } else {
        empties_upto(b, n - 1)
    }
}

/// The empty positions of the board, in ascending index order.
pub open spec fn empties(b: Seq<Option<Mark>>) -> Seq<usize> {
    empties_upto(b, 9)
}

/// The outcome a board stands at. Only the mover who just played can have
/// completed a line, so at most one mark wins on any reachable board.
pub open spec fn spec_outcome(b: Seq<Option<Mark>>) -> Outcome {
    if wins(b, Mark::X) {
        Outcome::Won(Mark::X)
    } else if wins(b, Mark::O) {
        Outcome::Won(Mark::O)
    } else if occupied(b) == 9 {
        Outcome::Draw
    } else {
        Outcome::InProgress
    }
}

/// The whole game: the nine cells, in index order, and the mark to move next.
///
/// The outcome is derived, never stored: [`Game::outcome`] recomputes it from
/// the board, so it can never disagree with the cells.
pub struct Game {
    /// The nine cells, row by row: position `3 * row + col`.
    pub board: Vec<Option<Mark>>,
    /// The mark allowed to move next. Meaningless once the game is over.
    pub turn: Mark,
}

impl Game {
    /// The board really has nine cells.
    pub open spec fn wf(&self) -> bool {
        self.board@.len() == 9
    }

    /// A fresh game: all nine cells empty, `first_mover` to move.
    pub fn new(first_mover: Mark) -> (g: Game)
        ensures
            g.wf(),
            forall|i: int| 0 <= i < 9 ==> g.board@[i] is None,
            g.turn == first_mover,
            spec_outcome(g.board@) == Outcome::InProgress,
    {
        let mut board: Vec<Option<Mark>> = Vec::new();
        let mut i: usize = 0;
        while i < 9
            invariant
                i <= 9,
                board@.len() == i,
                forall|j: int| 0 <= j < i ==> board@[j] is None,
            decreases 9 - i,
        {
            board.push(None);
            i += 1;
        }
        proof {
            lemma_occupied_upto_all_none(board@, 9);
        }
        Game { board, turn: first_mover }
    }

    /// The mark a cell holds, if any.
    pub fn cell(&self, position: usize) -> (r: Option<Mark>)
        requires
            self.wf(),
            position < 9,
        ensures
            r == self.board@[position as int],
    {
        self.board[position]
    }

    /// Whether cell `i` holds exactly the mark `m`.
    fn cell_has(&self, i: usize, m: Mark) -> (r: bool)
        requires
            self.wf(),
            i < 9,
        ensures
            r == (self.board@[i as int] == Some(m)),
    {
        match self.board[i] {
            Some(k) => k == m,
            None => false,
        }
    }

    /// Whether `m` owns a completed line.
    fn has_line(&self, m: Mark) -> (r: bool)
        requires
            self.wf(),
        ensures
            r == wins(self.board@, m),
    {
        (self.cell_has(0, m) && self.cell_has(1, m) && self.cell_has(2, m))
            || (self.cell_has(3, m) && self.cell_has(4, m) && self.cell_has(5, m))
            || (self.cell_has(6, m) && self.cell_has(7, m) && self.cell_has(8, m))
            || (self.cell_has(0, m) && self.cell_has(3, m) && self.cell_has(6, m))
            || (self.cell_has(1, m) && self.cell_has(4, m) && self.cell_has(7, m))
            || (self.cell_has(2, m) && self.cell_has(5, m) && self.cell_has(8, m))
            || (self.cell_has(0, m) && self.cell_has(4, m) && self.cell_has(8, m))
            || (self.cell_has(2, m) && self.cell_has(4, m) && self.cell_has(6, m))
    }

    /// How many cells are occupied.
    fn occupied_count(&self) -> (n: usize)
        requires
            self.wf(),
        ensures
            n as int == occupied(self.board@),
    {
        let mut n: usize = 0;
        let mut i: usize = 0;
        while i < 9
            invariant
                self.wf(),
                i <= 9,
                n <= i,
                n as int == occupied_upto(self.board@, i as int),
            decreases 9 - i,
        {
            if self.board[i].is_some() {
                n += 1;
            }
            i += 1;
        }
        n
    }

    /// The outcome the board currently stands at. Pure query: always
    /// consistent with the cells, never cached.
    pub fn outcome(&self) -> (r: Outcome)
        requires
            self.wf(),
        ensures
            r == spec_outcome(self.board@),
    {
        if self.has_line(Mark::X) {
            Outcome::Won(Mark::X)
        } else if self.has_line(Mark::O) {
            Outcome::Won(Mark::O)
        } else if self.occupied_count() == 9 {
            Outcome::Draw
        } else {
            Outcome::InProgress
        }
    }

    /// The currently empty positions, in ascending index order. Recomputed
    /// from the board on every call.
    pub fn legal_moves(&self) -> (r: Vec<usize>)
        requires
            self.wf(),
        ensures
            r@ == empties(self.board@),
    {
        let mut r: Vec<usize> = Vec::new();
        let mut i: usize = 0;
        while i < 9
            invariant
                self.wf(),
                i <= 9,
                r@ == empties_upto(self.board@, i as int),
            decreases 9 - i,
        {
            if self.board[i].is_none() {
                r.push(i);
            }
            i += 1;
        }
        r
    }

    /// Try to play the current turn's mark at `position`.
    ///
    /// The operation is atomic: on success the cell is written, the outcome
    /// is derived afresh, and the turn flips if the game is still open; on
    /// any error nothing changes. A position outside `0..9` is rejected
    /// before anything else, a finished game rejects every in-bounds
    /// position, and an occupied cell rejects the rest.
    pub fn attempt_move(&mut self, position: usize) -> (r: Result<(), MoveError>)
        requires
            old(self).wf(),
        ensures
            final(self).wf(),
            r == Err::<(), MoveError>(MoveError::OutOfBounds) <==> position >= 9,
            r == Err::<(), MoveError>(MoveError::GameOver) <==> position < 9
                && spec_outcome(old(self).board@) != Outcome::InProgress,
            r == Err::<(), MoveError>(MoveError::CellOccupied) <==> position < 9
                && spec_outcome(old(self).board@) == Outcome::InProgress
                && old(self).board@[position as int] is Some,
            r is Ok <==> position < 9 && spec_outcome(old(self).board@) == Outcome::InProgress
                && old(self).board@[position as int] is None,
            r is Err ==> *final(self) == *old(self),
            r is Ok ==> final(self).board@ == old(self).board@.update(
                position as int,
                Some(old(self).turn),
            ),
            r is Ok && spec_outcome(final(self).board@) == Outcome::InProgress ==> final(self).turn
                == spec_other(old(self).turn),
            r is Ok && spec_outcome(final(self).board@) != Outcome::InProgress ==> final(self).turn
                == old(self).turn,
    {
        if position >= 9 {
            return Err(MoveError::OutOfBounds);
        }
        if !matches!(self.outcome(), Outcome::InProgress) {
            return Err(MoveError::GameOver);
        }
        if self.board[position].is_some() {
            return Err(MoveError::CellOccupied);
        }
        let mover = self.turn;
        self.board.set(position, Some(mover));
        if matches!(self.outcome(), Outcome::InProgress) {
            self.turn = mover.other();
        }
        Ok(())
    }
}

impl Default for Game {
    /// A fresh game with the default first mover, `X`.
    fn default() -> (g: Game)
        ensures
            g.wf(),
            forall|i: int| 0 <= i < 9 ==> g.board@[i] is None,
            g.turn == Mark::X,
            spec_outcome(g.board@) == Outcome::InProgress,
    {
        Game::new(Mark::X)
    }
}

/// The text a front end would put on a cell: the mark's letter, or nothing.
pub fn cell_text(c: Option<Mark>) -> (r: &'static str)
    ensures
        c == Some(Mark::X) ==> r@ == "X"@,
        c == Some(Mark::O) ==> r@ == "O"@,
        c is None ==> r@ == ""@,
{
    match c {
        Some(Mark::X) => "X",
        Some(Mark::O) => "O",
        None => "",
    }
}

/// A board whose first `n` cells are all empty has no occupied cell among them.
proof fn lemma_occupied_upto_all_none(b: Seq<Option<Mark>>, n: int)
    requires
        forall|i: int| 0 <= i < n ==> b[i] is None,
    ensures
        occupied_upto(b, n) == 0,
    decreases n,
{
    if n > 0 {
        lemma_occupied_upto_all_none(b, n - 1);
    }
}

/// Among the first `n` cells, the empty and the occupied ones together are
/// all of them.
proof fn lemma_counts_upto(b: Seq<Option<Mark>>, n: int)
    requires
        0 <= n,
    ensures
        empties_upto(b, n).len() + occupied_upto(b, n) == n,
    decreases n,
{
    if n > 0 {
        lemma_counts_upto(b, n - 1);
    }
}

/// The legal moves and the occupied cells partition the board: however the
/// game went, their counts sum to nine.
pub proof fn lemma_moves_plus_occupied(b: Seq<Option<Mark>>)
    requires
        b.len() == 9,
    ensures
        empties(b).len() + occupied(b) == 9,
{
    lemma_counts_upto(b, 9);
}

/// `empties_upto(b, n)` holds exactly the positions below `n` whose cell is
/// empty.
proof fn lemma_empties_upto_contains(b: Seq<Option<Mark>>, n: int, p: usize)
    requires
        0 <= n <= 9,
    ensures
        empties_upto(b, n).contains(p) <==> (p < n && b[p as int] is None),
    decreases n,
{
    if n > 0 {
        lemma_empties_upto_contains(b, n - 1, p);
        if b[n - 1] is None {
            vstd::seq_lib::lemma_seq_contains_after_push(empties_upto(b, n - 1), (n - 1) as usize, p);
        }
    }
}

/// The sequence of legal moves holds exactly the empty positions: `p` is
/// listed iff `p` is a cell index and that cell is unoccupied.
pub proof fn lemma_legal_moves_are_empties(b: Seq<Option<Mark>>, p: usize)
    requires
        b.len() == 9,
    ensures
        empties(b).contains(p) <==> (p < 9 && b[p as int] is None),
{
    lemma_empties_upto_contains(b, 9, p);
}

/// On a fresh board every position is open to the first mover: the game is
/// in progress, the cell is free and listed among the legal moves, and once
/// any mark lands there the same position is occupied, so a second move
/// there is rejected.
pub proof fn lemma_first_move_each_position(b: Seq<Option<Mark>>, position: int, m: Mark)
    requires
        b.len() == 9,
        forall|i: int| 0 <= i < 9 ==> b[i] is None,
        0 <= position < 9,
    ensures
        spec_outcome(b) == Outcome::InProgress,
        b[position] is None,
        empties(b).contains(position as usize),
        b.update(position, Some(m))[position] is Some,
{
    lemma_occupied_upto_all_none(b, 9);
    lemma_legal_moves_are_empties(b, position as usize);
}

} // verus!
