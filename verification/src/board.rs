//! The playing field: a rectangle whose outermost ring of cells is wall.

use vstd::prelude::*;
use vstd::set_lib::{lemma_int_range, lemma_len_subset, set_int_range};
use crate::error::ConfigError;
use crate::geometry::Point;
use crate::random::random_Point;

verus! {

/// A rectangle of `width` by `height` cells. Both are at least 3, so that
/// some cell lies inside the wall.
#[derive(Debug, Copy, Clone, PartialEq, Eq, Structural)]
pub struct Board {
    height: i16,
    width: i16,
}

impl Board {
    /// The number of rows, the two of the wall among them.
    pub closed spec fn spec_height(&self) -> i16 {
        self.height
    }

    /// The number of columns, the two of the wall among them.
    pub closed spec fn spec_width(&self) -> i16 {
        self.width
    }

    /// Every board that exists at run time has an interior.
    #[verifier::type_invariant]
    pub open spec fn wf(&self) -> bool {
        self.height() >= 3 && self.width() >= 3
    }

    /// Whether `p` lies strictly inside the wall.
    pub open spec fn interior(&self, p: Point) -> bool {
        0 < p.x < self.width() - 1 && 0 < p.y < self.height() - 1
    }

    /// Whether `p` lies on the outermost ring of the rectangle.
    pub open spec fn on_wall(&self, p: Point) -> bool {
        &&& 0 <= p.x < self.width()
        &&& 0 <= p.y < self.height()
        &&& (p.x == 0 || p.x == self.width() - 1 || p.y == 0 || p.y == self.height() - 1)
    }

    /// How many cells lie strictly inside the wall.
    pub open spec fn interior_area(&self) -> int {
        (self.width() - 2) * (self.height() - 2)
    }

    /// The place of `p` among the interior cells, counted from 0 row by row.
    pub open spec fn rank(&self, p: Point) -> int {
        (p.y - 1) * (self.width() - 2) + (p.x - 1)
    }

    /// A board of `height` rows and `width` columns, or the reason why there
    /// is none: the height is looked at first.
    pub fn new(height: i16, width: i16) -> (made: Result<Board, ConfigError>)
        ensures
            height < 3 ==> made is Err && made->Err_0 == ConfigError::HeightTooSmall,
            height >= 3 && width < 3 ==> made is Err && made->Err_0 == ConfigError::WidthTooSmall,
            height >= 3 && width >= 3 ==> made is Ok,
            made matches Ok(board) ==> board.wf() && board.height() == height && board.width()
                == width,
    {
        if height < 3 {
            Err(ConfigError::HeightTooSmall)
        } else if width < 3 {
            Err(ConfigError::WidthTooSmall)
        } else {
            Ok(Board { height, width })
        }
    }

    /// The number of rows, the two of the wall among them.
    #[verifier::when_used_as_spec(spec_height)]
    pub fn height(&self) -> (h: i16)
        ensures
            h == self.height(),
    {
        self.height
    }

    /// The number of columns, the two of the wall among them.
    #[verifier::when_used_as_spec(spec_width)]
    pub fn width(&self) -> (w: i16)
        ensures
            w == self.width(),
    {
        self.width
    }

    /// Whether `p` lies strictly inside the wall.
    pub fn is_interior(&self, p: Point) -> (inside: bool)
        ensures
            inside == self.interior(p),
    {
        proof {
            use_type_invariant(self);
        }
        0 < p.x && p.x < self.width - 1 && 0 < p.y && p.y < self.height - 1
    }

    /// A cell inside the wall, drawn at random.
    pub fn random_interior_position(&self) -> (p: Point)
        ensures
            self.interior(p),
    {
        proof {
            use_type_invariant(self);
        }
        random_Point(self.width, self.height)
    }
}

/// The interior of a board has at least one cell, and no more than the
/// largest board has.
pub proof fn lemma_interior_area_bounds(board: Board)
    requires
        board.wf(),
    ensures
        1 <= board.interior_area() <= 32765 * 32765,
{
    let w = board.width() - 2;
    let h = board.height() - 2;
    assert(1 <= w * h <= 32765 * 32765) by (nonlinear_arith)
        requires
            1 <= w <= 32765,
            1 <= h <= 32765,
    ;
}

/// Every interior cell has a rank below the number of interior cells.
pub proof fn lemma_rank_in_range(board: Board, p: Point)
    requires
        board.wf(),
        board.interior(p),
    ensures
        0 <= board.rank(p) < board.interior_area(),
{
    let w = board.width() - 2;
    let h = board.height() - 2;
    let row = p.y - 1;
    let col = p.x - 1;
    assert(0 <= row * w + col < w * h) by (nonlinear_arith)
        requires
            0 <= row < h,
            0 <= col < w,
    ;
}

/// Two interior cells of one rank are one cell.
pub proof fn lemma_rank_injective(board: Board, p: Point, q: Point)
    requires
        board.wf(),
        board.interior(p),
        board.interior(q),
        board.rank(p) == board.rank(q),
    ensures
        p == q,
{
    let w = board.width() - 2;
    let (pr, pc) = (p.y - 1, p.x - 1);
    let (qr, qc) = (q.y - 1, q.x - 1);
    assert(pr == qr && pc == qc) by (nonlinear_arith)
        requires
            0 <= pc < w,
            0 <= qc < w,
            pr * w + pc == qr * w + qc,
    ;
}

/// Cells that lie inside the wall, no two of them the same, are at most as
/// many as the interior has cells.
pub proof fn lemma_distinct_cells_fit(board: Board, cells: Seq<Point>)
    requires
        board.wf(),
        cells.no_duplicates(),
        forall|i: int| 0 <= i < cells.len() ==> board.interior(#[trigger] cells[i]),
    ensures
        cells.len() <= board.interior_area(),
{
    let ranks = cells.map_values(|p: Point| board.rank(p));
    assert forall|i: int, j: int|
        0 <= i < ranks.len() && 0 <= j < ranks.len() && i != j implies ranks[i] != ranks[j] by {
        if ranks[i] == ranks[j] {
            lemma_rank_injective(board, cells[i], cells[j]);
        }
    }
    ranks.unique_seq_to_set();
    lemma_interior_area_bounds(board);
    let all = set_int_range(0, board.interior_area());
    lemma_int_range(0, board.interior_area());
    assert forall|r: int| ranks.to_set().contains(r) implies all.contains(r) by {
        let i = choose|i: int| 0 <= i < ranks.len() && ranks[i] == r;
        lemma_rank_in_range(board, cells[i]);
    }
    lemma_len_subset(ranks.to_set(), all);
}

} // verus!
