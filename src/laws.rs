use vstd::prelude::*;

use crate::board::{in_bounds, Board};
use crate::piece::PieceType;
use crate::catalog::{pattern, range_of, sliding_directions_are_unit};
use crate::reach::{enterable, ray, rays, reachable};

verus! {

/// The square `j` steps from `(x, y)` along `(dx, dy)`.
pub open spec fn step_square(x: int, y: int, dx: int, dy: int, j: int) -> (int, int) {
    (x + j * dx, y + j * dy)
}

/// Whether the square is on the board and holds no piece.
pub open spec fn vacant(b: Board, sq: (int, int)) -> bool {
    in_bounds(sq.0, sq.1) && b.cell(sq.0, sq.1).is_none()
}

/// Whether the squares at distances `1 .. j - 1` from `(x, y)` along
/// `(dx, dy)` are all on the board and empty.
pub open spec fn path_clear(b: Board, x: int, y: int, dx: int, dy: int, j: int) -> bool {
    forall|i: int| 1 <= i < j ==> vacant(b, #[trigger] step_square(x, y, dx, dy, i))
}

/// Whether a slide of at most `n` steps from `(x, y)` along `(dx, dy)`
/// gets to distance `j`.
spec fn gets_to(b: Board, side: bool, x: int, y: int, dx: int, dy: int, n: int, j: int) -> bool {
    &&& j <= n
    &&& path_clear(b, x, y, dx, dy, j)
    &&& enterable(b, side, step_square(x, y, dx, dy, j).0, step_square(x, y, dx, dy, j).1)
}

proof fn lemma_step_shift(x: int, y: int, dx: int, dy: int, i: int)
    ensures
        step_square(x + dx, y + dy, dx, dy, i) == step_square(x, y, dx, dy, i + 1),
{
    assert((i + 1) * dx == i * dx + dx) by (nonlinear_arith);
    assert((i + 1) * dy == i * dy + dy) by (nonlinear_arith);
}

/// The shape of a ray of at most `n` steps: its `k`-th square lies `k + 1`
/// steps out, and it reaches distance `j` exactly when `j <= n`, every
/// nearer square is empty and the square at `j` may be entered.
proof fn lemma_ray_shape(b: Board, side: bool, x: int, y: int, dx: int, dy: int, n: nat)
    ensures
        forall|k: int|
            0 <= k < ray(b, side, x, y, dx, dy, n).len() ==> (
            #[trigger] ray(b, side, x, y, dx, dy, n)[k].0 as int,
            ray(b, side, x, y, dx, dy, n)[k].1 as int,
            ) == step_square(x, y, dx, dy, k + 1),
        forall|j: int|
            j >= 1 ==> (j <= ray(b, side, x, y, dx, dy, n).len() <==> #[trigger] gets_to(b, side, x, y, dx, dy, n as int, j)),
    decreases n,
{
    let r = ray(b, side, x, y, dx, dy, n);
    lemma_step_shift(x, y, dx, dy, 0);
    assert(step_square(x, y, dx, dy, 1) == (x + dx, y + dy));
    if n == 0 || !in_bounds(x + dx, y + dy) {
        assert(r.len() == 0);
        assert forall|j: int| j >= 1 implies !#[trigger] gets_to(b, side, x, y, dx, dy, n as int, j) by {
            if j > 1 && n > 0 {
                assert(!vacant(b, step_square(x, y, dx, dy, 1)));
            }
        }
    } else if b.cell(x + dx, y + dy).is_some() {
        let p = b.cell(x + dx, y + dy).unwrap();
        assert(r.len() == if p.side != side { 1int } else { 0int });
        assert forall|j: int| j >= 1 implies (j <= r.len() <==> #[trigger] gets_to(b, side, x, y, dx, dy, n as int, j)) by {
            if j > 1 {
                assert(!vacant(b, step_square(x, y, dx, dy, 1)));
            }
        }
    } else {
        let (nx, ny) = (x + dx, y + dy);
        let rest = ray(b, side, nx, ny, dx, dy, (n - 1) as nat);
        lemma_ray_shape(b, side, nx, ny, dx, dy, (n - 1) as nat);
        assert(r == seq![(nx as usize, ny as usize)] + rest);
        assert forall|k: int| 0 <= k < r.len() implies (
            #[trigger] r[k].0 as int,
            r[k].1 as int,
        ) == step_square(x, y, dx, dy, k + 1) by {
            if k > 0 {
                assert(r[k] == rest[k - 1]);
                lemma_step_shift(x, y, dx, dy, k);
            }
        }
        assert forall|j: int| j >= 1 implies (j <= r.len() <==> #[trigger] gets_to(b, side, x, y, dx, dy, n as int, j)) by {
            if j > 1 {
                lemma_step_shift(x, y, dx, dy, j - 1);
                assert(j - 1 <= rest.len() <==> gets_to(b, side, nx, ny, dx, dy, n - 1, j - 1));
                assert(path_clear(b, x, y, dx, dy, j) <==> path_clear(b, nx, ny, dx, dy, j - 1)) by {
                    if path_clear(b, x, y, dx, dy, j) {
                        assert forall|i: int| 1 <= i < j - 1 implies vacant(
                            b,
                            #[trigger] step_square(nx, ny, dx, dy, i),
                        ) by {
                            lemma_step_shift(x, y, dx, dy, i);
                        }
                    }
                    if path_clear(b, nx, ny, dx, dy, j - 1) {
                        assert forall|i: int| 1 <= i < j implies vacant(
                            b,
                            #[trigger] step_square(x, y, dx, dy, i),
                        ) by {
                            if i > 1 {
                                lemma_step_shift(x, y, dx, dy, i - 1);
                            }
                        }
                    }
                }
            }
        }
    }
}

/// Along every direction of a sliding piece the squares it reaches are the
/// squares at distance 1, 2, ... in turn, up to the first occupied square or
/// the edge: every square before it is empty, and the occupied square itself
/// is reached exactly when it holds a piece of the other side.
pub proof fn sliding_ray_stops_at_first_piece(
    b: Board,
    kind: PieceType,
    side: bool,
    x: int,
    y: int,
    dx: int,
    dy: int,
)
    requires
        in_bounds(x, y),
        kind.is_sliding(),
        pattern(kind, side).contains((dx, dy)),
    ensures
        forall|k: int|
            0 <= k < ray(b, side, x, y, dx, dy, range_of(kind)).len() ==> (
            #[trigger] ray(b, side, x, y, dx, dy, range_of(kind))[k].0 as int,
            ray(b, side, x, y, dx, dy, range_of(kind))[k].1 as int,
            ) == step_square(x, y, dx, dy, k + 1),
        forall|j: int|
            j >= 1 ==> (j <= ray(b, side, x, y, dx, dy, range_of(kind)).len() <==> (#[trigger] path_clear(
                b,
                x,
                y,
                dx,
                dy,
                j,
            ) && enterable(b, side, step_square(x, y, dx, dy, j).0, step_square(x, y, dx, dy, j).1))),
{
    let r = ray(b, side, x, y, dx, dy, range_of(kind));
    lemma_ray_shape(b, side, x, y, dx, dy, range_of(kind));
    let i = choose|i: int| 0 <= i < pattern(kind, side).len() && pattern(kind, side)[i] == (dx, dy);
    sliding_directions_are_unit(kind, side, i);
    assert(range_of(kind) == 8);
    assert forall|j: int| j >= 1 implies (j <= r.len() <==> (#[trigger] path_clear(b, x, y, dx, dy, j)
        && enterable(b, side, step_square(x, y, dx, dy, j).0, step_square(x, y, dx, dy, j).1))) by {
        assert(j <= r.len() <==> gets_to(b, side, x, y, dx, dy, 8, j));
        if in_bounds(step_square(x, y, dx, dy, j).0, step_square(x, y, dx, dy, j).1) {
            if dx == 1 {
                assert(j * dx == j);
            } else if dx == -1 {
                assert(j * dx == -j);
            } else if dy == 1 {
                assert(j * dy == j);
            } else {
                assert(j * dy == -j);
            }
        }
    }
}

/// Whether two boards hold the same piece on every square.
pub open spec fn same_contents(b1: Board, b2: Board) -> bool {
    forall|f: int, r: int| #[trigger] in_bounds(f, r) ==> b1.cell(f, r) == b2.cell(f, r)
}

proof fn lemma_ray_same_contents(b1: Board, b2: Board, side: bool, x: int, y: int, dx: int, dy: int, n: nat)
    requires
        same_contents(b1, b2),
    ensures
        ray(b1, side, x, y, dx, dy, n) == ray(b2, side, x, y, dx, dy, n),
    decreases n,
{
    if n > 0 && in_bounds(x + dx, y + dy) {
        lemma_ray_same_contents(b1, b2, side, x + dx, y + dy, dx, dy, (n - 1) as nat);
    }
}

proof fn lemma_rays_same_contents(b1: Board, b2: Board, side: bool, x: int, y: int, dirs: Seq<(int, int)>, n: nat)
    requires
        same_contents(b1, b2),
    ensures
        rays(b1, side, x, y, dirs, n) == rays(b2, side, x, y, dirs, n),
    decreases dirs.len(),
{
    if dirs.len() > 0 {
        lemma_rays_same_contents(b1, b2, side, x, y, dirs.drop_last(), n);
        lemma_ray_same_contents(b1, b2, side, x, y, dirs.last().0, dirs.last().1, n);
    }
}

/// The squares reachable from a square depend on the pieces on the board
/// alone: two boards with the same contents give the same squares, in the
/// same order. In particular asking twice about an unchanged board gives the
/// same answer both times.
pub proof fn reachable_depends_only_on_contents(b1: Board, b2: Board, from: (usize, usize))
    requires
        in_bounds(from.0 as int, from.1 as int),
        same_contents(b1, b2),
    ensures
        reachable(b1, from) == reachable(b2, from),
{
    assert(b1.cell(from.0 as int, from.1 as int) == b2.cell(from.0 as int, from.1 as int));
    if let Some(p) = b1.cell(from.0 as int, from.1 as int) {
        lemma_rays_same_contents(b1, b2, p.side, from.0 as int, from.1 as int, pattern(p.kind, p.side), range_of(p.kind));
    }
}

} // verus!
