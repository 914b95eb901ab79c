use vstd::prelude::*;

use crate::board::{in_bounds, Board};
use crate::catalog::{directions, pattern, range, range_of};
use crate::piece::Piece;

verus! {

/// Whether a piece of `side` may end its move on `(file, rank)`: the square
/// is on the board and is empty or holds a piece of the other side.
pub open spec fn enterable(b: Board, side: bool, file: int, rank: int) -> bool {
    &&& in_bounds(file, rank)
    &&& match b.cell(file, rank) {
        None => true,
        Some(p) => p.side != side,
    }
}

/// The squares a piece of `side` standing on `(x, y)` reaches along the
/// direction `(dx, dy)` in at most `n` steps: each empty square is taken and
/// the walk goes on; a square of the other side is taken and ends the walk;
/// a square of its own side, or the edge, ends it with nothing taken.
pub open spec fn ray(b: Board, side: bool, x: int, y: int, dx: int, dy: int, n: nat) -> Seq<
    (usize, usize),
>
    decreases n,
{
    let (nx, ny) = (x + dx, y + dy);
    if n == 0 || !in_bounds(nx, ny) {
        seq![]
    } else {
        match b.cell(nx, ny) {
            None => seq![(nx as usize, ny as usize)] + ray(b, side, nx, ny, dx, dy, (n - 1) as nat),
            Some(p) => if p.side != side {
                seq![(nx as usize, ny as usize)]
            } else {
                seq![]
            },
        }
    }
}

/// The rays along each of `dirs` in turn, concatenated.
pub open spec fn rays(b: Board, side: bool, x: int, y: int, dirs: Seq<(int, int)>, n: nat) -> Seq<
    (usize, usize),
>
    decreases dirs.len(),
{
    if dirs.len() == 0 {
        seq![]
    } else {
        rays(b, side, x, y, dirs.drop_last(), n) + ray(
            b,
            side,
            x,
            y,
            dirs.last().0,
            dirs.last().1,
            n,
        )
    }
}

/// The squares that the piece on `from` can move to, direction by direction
/// in the order of its pattern and by increasing distance within each; empty
/// when `from` is empty.
pub open spec fn reachable(b: Board, from: (usize, usize)) -> Seq<(usize, usize)> {
    match b.cell(from.0 as int, from.1 as int) {
        None => seq![],
        Some(p) => rays(b, p.side, from.0 as int, from.1 as int, pattern(p.kind, p.side), range_of(p.kind)),
    }
}

/// Offers `square` to a piece of `side`: appends it to `out` when it is empty
/// or holds a piece of the other side. Returns whether a slide may go on past
/// it, that is whether it is empty.
pub fn push_reachable(board: &Board, side: bool, square: (usize, usize), out: &mut Vec<(usize, usize)>) -> (go_on: bool)
    requires
        in_bounds(square.0 as int, square.1 as int),
    ensures
        go_on == board.cell(square.0 as int, square.1 as int).is_none(),
        final(out)@ == if enterable(*board, side, square.0 as int, square.1 as int) {
            old(out)@.push(square)
        } else {
            old(out)@
        },
{
    match board.at(square) {
        Some(piece) => {
            if piece.side != side {
                out.push(square);
            }
            false
        },
        None => {
            out.push(square);
            true
        },
    }
}

/// Appends to `out` the ray of a piece of `side` on `from` along `dir`, at
/// most `n` squares long.
fn push_ray(board: &Board, side: bool, from: (usize, usize), dir: (i8, i8), n: usize, out: &mut Vec<(usize, usize)>)
    requires
        in_bounds(from.0 as int, from.1 as int),
    ensures
        final(out)@ == old(out)@ + ray(*board, side, from.0 as int, from.1 as int, dir.0 as int, dir.1 as int, n as nat),
{
    let ghost whole = old(out)@ + ray(*board, side, from.0 as int, from.1 as int, dir.0 as int, dir.1 as int, n as nat);
    let mut x: usize = from.0;
    let mut y: usize = from.1;
    let mut left: usize = n;
    proof {
        assert(out@ + ray(*board, side, x as int, y as int, dir.0 as int, dir.1 as int, left as nat) == whole);
    }
    while left > 0
        invariant
            in_bounds(x as int, y as int),
            out@ + ray(*board, side, x as int, y as int, dir.0 as int, dir.1 as int, left as nat) == whole,
        decreases left,
    {
        let nx: isize = x as isize + dir.0 as isize;
        let ny: isize = y as isize + dir.1 as isize;
        if nx < 0 || nx > 8 || ny < 0 || ny > 8 {
            proof {
                assert(out@ + ray(*board, side, x as int, y as int, dir.0 as int, dir.1 as int, 0) =~= whole);
            }
            left = 0;
        } else {
            let ghost before = out@;
            let square = (nx as usize, ny as usize);
            let go_on = push_reachable(board, side, square, out);
            if go_on {
                proof {
                    assert(before + ray(*board, side, x as int, y as int, dir.0 as int, dir.1 as int, left as nat)
                        =~= out@ + ray(*board, side, nx as int, ny as int, dir.0 as int, dir.1 as int, (left - 1) as nat));
                }
                x = square.0;
                y = square.1;
                left = left - 1;
            } else {
                proof {
                    assert(out@ + ray(*board, side, x as int, y as int, dir.0 as int, dir.1 as int, 0) =~= whole);
                }
                left = 0;
            }
        }
    }
    assert(out@ =~= whole);
}

/// The squares that the piece on `from` can move to (empty when `from` is
/// empty). Every square listed is on the board and empty or held by the
/// other side.
pub fn reachable_squares(board: &Board, from: (usize, usize)) -> (r: Vec<(usize, usize)>)
    requires
        in_bounds(from.0 as int, from.1 as int),
    ensures
        r@ == reachable(*board, from),
        board.cell(from.0 as int, from.1 as int).is_none() ==> r@.len() == 0,
        forall|k: int|
            0 <= k < r@.len() ==> enterable(
                *board,
                board.cell(from.0 as int, from.1 as int).unwrap().side,
                #[trigger] r@[k].0 as int,
                r@[k].1 as int,
            ),
{
    let mut out: Vec<(usize, usize)> = Vec::new();
    match board.at(from) {
        None => {},
        Some(piece) => {
            let dirs = directions(piece.kind, piece.side);
            let n = range(piece.kind);
            let ghost pat = pattern(piece.kind, piece.side);
            for i in 0..dirs.len()
                invariant
                    in_bounds(from.0 as int, from.1 as int),
                    n == range_of(piece.kind),
                    dirs@.len() == pat.len(),
                    forall|j: int| 0 <= j < dirs@.len() ==> (#[trigger] dirs@[j].0 as int, dirs@[j].1 as int) == pat[j],
                    out@ == rays(*board, piece.side, from.0 as int, from.1 as int, pat.take(i as int), n as nat),
            {
                push_ray(board, piece.side, from, dirs[i], n, &mut out);
                proof {
                    assert(pat.take(i + 1).drop_last() =~= pat.take(i as int));
                    assert((dirs@[i as int].0 as int, dirs@[i as int].1 as int) == pat[i as int]);
                }
            }
            proof {
                assert(pat.take(dirs.len() as int) =~= pat);
            }
        },
    }
    proof {
        lemma_reachable_enterable(*board, from);
        assert forall|k: int| 0 <= k < out@.len() implies enterable(
            *board,
            board.cell(from.0 as int, from.1 as int).unwrap().side,
            #[trigger] out@[k].0 as int,
            out@[k].1 as int,
        ) by {
            assert(out@[k] == reachable(*board, from)[k]);
        }
    }
    out
}

/// Every square of a ray is enterable by the moving side.
proof fn lemma_ray_enterable(b: Board, side: bool, x: int, y: int, dx: int, dy: int, n: nat)
    ensures
        forall|k: int|
            0 <= k < ray(b, side, x, y, dx, dy, n).len() ==> enterable(
                b,
                side,
                #[trigger] ray(b, side, x, y, dx, dy, n)[k].0 as int,
                ray(b, side, x, y, dx, dy, n)[k].1 as int,
            ),
    decreases n,
{
    if n > 0 && in_bounds(x + dx, y + dy) {
        let rest = ray(b, side, x + dx, y + dy, dx, dy, (n - 1) as nat);
        lemma_ray_enterable(b, side, x + dx, y + dy, dx, dy, (n - 1) as nat);
        let r = ray(b, side, x, y, dx, dy, n);
        assert forall|k: int| 0 <= k < r.len() implies enterable(
            b,
            side,
            #[trigger] r[k].0 as int,
            r[k].1 as int,
        ) by {
            if k > 0 {
                assert(r[k] == rest[k - 1]);
            }
        }
    }
}

/// Every square of a concatenation of rays is enterable by the moving side.
proof fn lemma_rays_enterable(b: Board, side: bool, x: int, y: int, dirs: Seq<(int, int)>, n: nat)
    ensures
        forall|k: int|
            0 <= k < rays(b, side, x, y, dirs, n).len() ==> enterable(
                b,
                side,
                #[trigger] rays(b, side, x, y, dirs, n)[k].0 as int,
                rays(b, side, x, y, dirs, n)[k].1 as int,
            ),
    decreases dirs.len(),
{
    if dirs.len() > 0 {
        lemma_rays_enterable(b, side, x, y, dirs.drop_last(), n);
        lemma_ray_enterable(b, side, x, y, dirs.last().0, dirs.last().1, n);
        let front = rays(b, side, x, y, dirs.drop_last(), n);
        let back = ray(b, side, x, y, dirs.last().0, dirs.last().1, n);
        assert forall|k: int| 0 <= k < rays(b, side, x, y, dirs, n).len() implies enterable(
            b,
            side,
            #[trigger] rays(b, side, x, y, dirs, n)[k].0 as int,
            rays(b, side, x, y, dirs, n)[k].1 as int,
        ) by {
            if k < front.len() {
                assert(rays(b, side, x, y, dirs, n)[k] == front[k]);
            } else {
                assert(rays(b, side, x, y, dirs, n)[k] == back[k - front.len()]);
            }
        }
    }
}

/// Every square reachable from an occupied square is enterable by the side
/// of the piece there.
proof fn lemma_reachable_enterable(b: Board, from: (usize, usize))
    ensures
        forall|k: int|
            0 <= k < reachable(b, from).len() ==> enterable(
                b,
                b.cell(from.0 as int, from.1 as int).unwrap().side,
                #[trigger] reachable(b, from)[k].0 as int,
                reachable(b, from)[k].1 as int,
            ),
{
    if let Some(p) = b.cell(from.0 as int, from.1 as int) {
        lemma_rays_enterable(b, p.side, from.0 as int, from.1 as int, pattern(p.kind, p.side), range_of(p.kind));
    }
}

} // verus!
