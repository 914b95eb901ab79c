use vstd::prelude::*;

use crate::board::{in_bounds, Board};
use crate::reach::{reachable, reachable_squares};

verus! {

/// A command from the player.
#[derive(Debug, Clone, Copy, PartialEq, Eq, Structural)]
pub enum Command {
    /// Move the focus one rank towards rank 0.
    Up,
    /// Move the focus one rank towards rank 8.
    Down,
    /// Move the focus one file towards file 0.
    Left,
    /// Move the focus one file towards file 8.
    Right,
    /// Choose the focused square.
    Confirm,
    /// End the session.
    Quit,
}

/// Where the focus goes on `cmd`: one square in the commanded direction,
/// staying put at the edge; other commands leave it where it is.
pub open spec fn next_focus(focus: (usize, usize), cmd: Command) -> (usize, usize) {
    let (file, rank) = focus;
    match cmd {
        Command::Up => (file, if rank == 0 { 0 } else { (rank - 1) as usize }),
        Command::Down => (file, if rank >= 8 { rank } else { (rank + 1) as usize }),
        Command::Left => (if file == 0 { 0 } else { (file - 1) as usize }, rank),
        Command::Right => (if file >= 8 { file } else { (file + 1) as usize }, rank),
        _ => focus,
    }
}

/// The board with a navigation cursor (`focus`), a chosen square, and the
/// squares that the piece on the chosen square can reach.
#[derive(Debug)]
pub struct Chessboard {
    /// Chessboard data.
    board: Board,
    /// Coordinate of the chosen square now.
    chosen: (usize, usize),
    /// Coordinate of the focused square now.
    focus: (usize, usize),
    /// The squares reachable from the chosen square.
    reachable: Vec<(usize, usize)>,
}

/// A session on the starting position, with focus and chosen square on the
/// king of side `true` (file 4, rank 8).
pub fn new() -> (c: Chessboard)
    ensures
        c.wf(),
        forall|f: int, r: int| #[trigger] in_bounds(f, r) ==> c.spec_board().cell(f, r) == crate::board::start_cell(f, r),
        c.spec_focus() == (4usize, 8usize),
        c.spec_chosen() == (4usize, 8usize),
{
    Chessboard::from_board(Board::starting(), (4, 8))
}

impl Chessboard {
    /// The board.
    pub closed spec fn spec_board(&self) -> Board {
        self.board
    }

    /// The focused square.
    pub closed spec fn spec_focus(&self) -> (usize, usize) {
        self.focus
    }

    /// The chosen square.
    pub closed spec fn spec_chosen(&self) -> (usize, usize) {
        self.chosen
    }

    /// The squares highlighted as reachable.
    pub closed spec fn spec_reachable(&self) -> Seq<(usize, usize)> {
        self.reachable@
    }

    /// Focus and chosen square are on the board, and the reachable squares
    /// are those of the piece on the chosen square.
    pub open spec fn wf(&self) -> bool {
        &&& in_bounds(self.spec_focus().0 as int, self.spec_focus().1 as int)
        &&& in_bounds(self.spec_chosen().0 as int, self.spec_chosen().1 as int)
        &&& self.spec_reachable() == reachable(self.spec_board(), self.spec_chosen())
    }

    /// A session on `board` with focus and chosen square on `square`.
    pub fn from_board(board: Board, square: (usize, usize)) -> (c: Chessboard)
        requires
            in_bounds(square.0 as int, square.1 as int),
        ensures
            c.wf(),
            c.spec_board() == board,
            c.spec_focus() == square,
            c.spec_chosen() == square,
    {
        let reachable = reachable_squares(&board, square);
        Chessboard { board, chosen: square, focus: square, reachable }
    }

    /// The board.
    pub fn board(&self) -> (r: &Board)
        ensures
            *r == self.spec_board(),
    {
        &self.board
    }

    /// The focused square.
    pub fn focus(&self) -> (r: (usize, usize))
        ensures
            r == self.spec_focus(),
    {
        self.focus
    }

    /// The chosen square.
    pub fn chosen(&self) -> (r: (usize, usize))
        ensures
            r == self.spec_chosen(),
    {
        self.chosen
    }

    /// The squares reachable from the chosen square.
    pub fn reachable(&self) -> (r: &Vec<(usize, usize)>)
        ensures
            r@ == self.spec_reachable(),
    {
        &self.reachable
    }

    /// Move up the coordinate of the focused square.
    pub fn move_up_focus(&mut self)
        requires
            old(self).wf(),
        ensures
            final(self).wf(),
            final(self).spec_focus() == next_focus(old(self).spec_focus(), Command::Up),
            final(self).spec_chosen() == old(self).spec_chosen(),
            final(self).spec_board() == old(self).spec_board(),
            final(self).spec_reachable() == old(self).spec_reachable(),
    {
        if self.focus.1 != 0 {
            self.focus.1 = self.focus.1 - 1;
        }
    }

    /// Move down the coordinate of the focused square.
    pub fn move_down_focus(&mut self)
        requires
            old(self).wf(),
        ensures
            final(self).wf(),
            final(self).spec_focus() == next_focus(old(self).spec_focus(), Command::Down),
            final(self).spec_chosen() == old(self).spec_chosen(),
            final(self).spec_board() == old(self).spec_board(),
            final(self).spec_reachable() == old(self).spec_reachable(),
    {
        if self.focus.1 != 8 {
            self.focus.1 = self.focus.1 + 1;
        }
    }

    /// Move left the coordinate of the focused square.
    pub fn move_left_focus(&mut self)
        requires
            old(self).wf(),
        ensures
            final(self).wf(),
            final(self).spec_focus() == next_focus(old(self).spec_focus(), Command::Left),
            final(self).spec_chosen() == old(self).spec_chosen(),
            final(self).spec_board() == old(self).spec_board(),
            final(self).spec_reachable() == old(self).spec_reachable(),
    {
        if self.focus.0 != 0 {
            self.focus.0 = self.focus.0 - 1;
        }
    }

    /// Move right the coordinate of the focused square.
    pub fn move_right_focus(&mut self)
        requires
            old(self).wf(),
        ensures
            final(self).wf(),
            final(self).spec_focus() == next_focus(old(self).spec_focus(), Command::Right),
            final(self).spec_chosen() == old(self).spec_chosen(),
            final(self).spec_board() == old(self).spec_board(),
            final(self).spec_reachable() == old(self).spec_reachable(),
    {
        if self.focus.0 != 8 {
            self.focus.0 = self.focus.0 + 1;
        }
    }

    /// Recomputes the reachable squares for `square`; nothing else changes.
    pub fn update_reachable_squares(&mut self, square: (usize, usize))
        requires
            in_bounds(square.0 as int, square.1 as int),
        ensures
            final(self).spec_reachable() == reachable(old(self).spec_board(), square),
            final(self).spec_board() == old(self).spec_board(),
            final(self).spec_focus() == old(self).spec_focus(),
            final(self).spec_chosen() == old(self).spec_chosen(),
    {
        self.reachable = reachable_squares(&self.board, square);
    }

    /// Chooses the focused square and recomputes the reachable squares for it.
    pub fn confirm(&mut self)
        requires
            old(self).wf(),
        ensures
            final(self).wf(),
            final(self).spec_chosen() == old(self).spec_focus(),
            final(self).spec_focus() == old(self).spec_focus(),
            final(self).spec_board() == old(self).spec_board(),
            final(self).spec_reachable() == reachable(old(self).spec_board(), old(self).spec_focus()),
    {
        self.chosen = self.focus;
        let square = self.chosen;
        self.update_reachable_squares(square);
    }

    /// Applies one command. Returns `false` on `Quit`, which changes nothing,
    /// and `true` otherwise.
    pub fn apply_input(&mut self, cmd: Command) -> (go_on: bool)
        requires
            old(self).wf(),
        ensures
            final(self).wf(),
            go_on == (cmd != Command::Quit),
            final(self).spec_board() == old(self).spec_board(),
            final(self).spec_focus() == next_focus(old(self).spec_focus(), cmd),
            final(self).spec_chosen() == if cmd == Command::Confirm {
                old(self).spec_focus()
            } else {
                old(self).spec_chosen()
            },
            final(self).spec_reachable() == if cmd == Command::Confirm {
                reachable(old(self).spec_board(), old(self).spec_focus())
            } else {
                old(self).spec_reachable()
            },
    {
        match cmd {
            Command::Up => self.move_up_focus(),
            Command::Down => self.move_down_focus(),
            Command::Left => self.move_left_focus(),
            Command::Right => self.move_right_focus(),
            Command::Confirm => self.confirm(),
            Command::Quit => return false,
        }
        true
    }
}

} // verus!
