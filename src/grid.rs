//! The four by four board of filled and empty cells.

use crate::dice::Dice;
use vstd::prelude::*;

verus! {

/// Number of cells on the board.
pub const CELLS: usize = 16;

/// Number of filled cells during play.
pub const FILLED: usize = 3;

/// How many cells of `s` are filled.
pub open spec fn count_filled(s: Seq<bool>) -> nat
    decreases s.len(),
{
    if s.len() == 0 {
        0
    } else {
        count_filled(s.drop_last()) + if s.last() {
            1nat
        } else {
            0nat
        }
    }
}

/// How many empty cells of `s` come before index `i`.
pub open spec fn empty_rank(s: Seq<bool>, i: int) -> int {
    i - count_filled(s.take(i))
}

/// `s` with its empty cell of rank `k` filled.
pub open spec fn fill_rank(s: Seq<bool>, k: int) -> Seq<bool> {
    s.update(choose|j: int| 0 <= j < s.len() && !s[j] && empty_rank(s, j) == k, true)
}

/// The board that `reset` leaves when its three draws are `draws[0..3]`.
pub open spec fn reset_board(draws: Seq<usize>) -> Seq<bool> {
    fill_rank(
        fill_rank(fill_rank(Seq::new(16, |j: int| false), draws[0] as int % 16), draws[1] as int % 15),
        draws[2] as int % 14,
    )
}

/// The board `after` comes from `before` by emptying the filled cell `i`
/// and then filling `j`, a cell that is empty at that moment (`i` itself
/// included).
pub open spec fn refilled(before: Seq<bool>, after: Seq<bool>, i: int, j: int) -> bool {
    &&& 0 <= j < before.len()
    &&& !before.update(i, false)[j]
    &&& after == before.update(i, false).update(j, true)
}

proof fn lemma_count_bound(s: Seq<bool>)
    ensures
        count_filled(s) <= s.len(),
    decreases s.len(),
{
    if s.len() > 0 {
        lemma_count_bound(s.drop_last());
    }
}

proof fn lemma_count_take_step(s: Seq<bool>, i: int)
    requires
        0 <= i < s.len(),
    ensures
        count_filled(s.take(i + 1)) == count_filled(s.take(i)) + if s[i] {
            1int
        } else {
            0int
        },
{
    assert(s.take(i + 1).drop_last() =~= s.take(i));
}

proof fn lemma_count_update(s: Seq<bool>, i: int, b: bool)
    requires
        0 <= i < s.len(),
    ensures
        count_filled(s.update(i, b)) == count_filled(s) - (if s[i] {
            1int
        } else {
            0int
        }) + (if b {
            1int
        } else {
            0int
        }),
    decreases s.len(),
{
    let t = s.update(i, b);
    if i == s.len() - 1 {
        assert(t.drop_last() =~= s.drop_last());
    } else {
        assert(t.drop_last() =~= s.drop_last().update(i, b));
        lemma_count_update(s.drop_last(), i, b);
    }
}

proof fn lemma_count_all_empty(n: int)
    requires
        0 <= n,
    ensures
        count_filled(Seq::new(n as nat, |j: int| false)) == 0,
    decreases n,
{
    if n > 0 {
        assert(Seq::new(n as nat, |j: int| false).drop_last() =~= Seq::new(
            (n - 1) as nat,
            |j: int| false,
        ));
        lemma_count_all_empty(n - 1);
    }
}

proof fn lemma_rank_monotone(s: Seq<bool>, a: int, b: int)
    requires
        0 <= a <= b <= s.len(),
    ensures
        empty_rank(s, a) <= empty_rank(s, b),
        a < b && !s[a] ==> empty_rank(s, a) < empty_rank(s, b),
    decreases b - a,
{
    if a < b {
        lemma_count_take_step(s, b - 1);
        lemma_rank_monotone(s, a, b - 1);
    }
}

/// Only one empty cell has a given rank, so filling by rank is filling that
/// cell.
proof fn lemma_fill_rank(s: Seq<bool>, j: int)
    requires
        0 <= j < s.len(),
        !s[j],
    ensures
        fill_rank(s, empty_rank(s, j)) == s.update(j, true),
{
    let k = empty_rank(s, j);
    let c = choose|c: int| 0 <= c < s.len() && !s[c] && empty_rank(s, c) == k;
    assert(0 <= c < s.len() && !s[c] && empty_rank(s, c) == k);
    if c < j {
        lemma_rank_monotone(s, c, j);
    } else if c > j {
        lemma_rank_monotone(s, j, c);
    }
}

/// A refill keeps the number of filled cells.
pub proof fn lemma_refill_count(before: Seq<bool>, after: Seq<bool>, i: int, j: int)
    requires
        0 <= i < before.len(),
        before[i],
        refilled(before, after, i, j),
    ensures
        count_filled(after) == count_filled(before),
{
    lemma_count_update(before, i, false);
    lemma_count_update(before.update(i, false), j, true);
}

/// The board: sixteen cells in row-major order, cell `i` at row `i / 4`
/// and column `i % 4`.
pub struct Grid {
    cells: [bool; 16],
}

impl View for Grid {
    type V = Seq<bool>;

    closed spec fn view(&self) -> Seq<bool> {
        self.cells@
    }
}

impl Grid {
    /// The board holds sixteen cells.
    pub open spec fn wf(&self) -> bool {
        self@.len() == CELLS
    }

    /// A board with every cell empty.
    pub fn empty() -> (r: Grid)
        ensures
            r.wf(),
            r@ =~= Seq::new(16, |j: int| false),
            count_filled(r@) == 0,
    {
        let r = Grid { cells: [false; 16] };
        assert(r@ =~= Seq::new(16, |j: int| false));
        proof {
            lemma_count_all_empty(16);
        }
        r
    }

    /// Whether cell `i` is filled.
    pub fn is_filled(&self, i: usize) -> (r: bool)
        requires
            self.wf(),
            i < CELLS,
        ensures
            r == self@[i as int],
    {
        self.cells[i]
    }

    /// How many cells are filled.
    pub fn filled_count(&self) -> (r: usize)
        requires
            self.wf(),
        ensures
            r == count_filled(self@),
    {
        let mut n: usize = 0;
        let mut i: usize = 0;
        while i < CELLS
            invariant
                self.wf(),
                i <= CELLS,
                n == count_filled(self@.take(i as int)),
            decreases CELLS - i,
        {
            proof {
                lemma_count_take_step(self@, i as int);
                lemma_count_bound(self@.take(i as int));
            }
            if self.cells[i] {
                n = n + 1;
            }
            i = i + 1;
        }
        assert(self@.take(16) =~= self@);
        n
    }

    /// Fills the empty cell of rank `k` (the `k`-th empty cell in index
    /// order, from zero) and returns its index.
    pub fn fill_nth_empty(&mut self, k: usize) -> (r: usize)
        requires
            old(self).wf(),
            k + count_filled(old(self)@) < CELLS,
        ensures
            final(self).wf(),
            r < CELLS,
            !old(self)@[r as int],
            empty_rank(old(self)@, r as int) == k,
            final(self)@ == old(self)@.update(r as int, true),
            final(self)@ == fill_rank(old(self)@, k as int),
            count_filled(final(self)@) == count_filled(old(self)@) + 1,
    {
        let ghost s = self@;
        let mut seen: usize = 0;
        let mut i: usize = 0;
        while i < CELLS
            invariant
                self.wf(),
                self@ == s,
                s == old(self)@,
                i <= CELLS,
                seen <= k,
                seen == empty_rank(s, i as int),
                k + count_filled(s) < CELLS,
            decreases CELLS - i,
        {
            proof {
                lemma_count_take_step(s, i as int);
            }
            if !self.cells[i] {
                if seen == k {
                    self.cells[i] = true;
                    proof {
                        lemma_count_update(s, i as int, true);
                        lemma_fill_rank(s, i as int);
                    }
                    return i;
                }
                seen = seen + 1;
            }
            i = i + 1;
        }
        assert(s.take(16) =~= s);
        i
    }

    /// Empties every cell, then fills cells drawn uniformly among the
    /// empty ones until three are filled.
    pub fn reset(&mut self, dice: &mut Dice)
        ensures
            final(self).wf(),
            count_filled(final(self)@) == FILLED,
            old(dice).pending().len() >= FILLED ==> final(self)@ == reset_board(old(dice).pending()),
            old(dice).pending().len() >= FILLED ==> final(dice).pending() == old(dice).pending().skip(
                3,
            ),
    {
        *self = Grid::empty();
        let ghost p = dice.pending();
        let ghost mut boards: Seq<Seq<bool>> = seq![self@];
        let mut n: usize = 0;
        while n < FILLED
            invariant
                self.wf(),
                n <= FILLED,
                count_filled(self@) == n,
                p == old(dice).pending(),
                boards.len() == n + 1,
                boards[0] == Seq::new(16, |j: int| false),
                boards[n as int] == self@,
                forall|m: int|
                    0 <= m < n && p.len() >= FILLED ==> #[trigger] boards[m + 1] == fill_rank(
                        boards[m],
                        p[m] as int % (CELLS - m),
                    ),
                p.len() >= FILLED ==> dice.pending() == p.skip(n as int),
            decreases FILLED - n,
        {
            let ghost before = dice.pending();
            let k = dice.below(CELLS - n);
            proof {
                if p.len() >= FILLED {
                    assert(before[0] == p[n as int]);
                    assert(dice.pending() =~= p.skip(n + 1));
                }
            }
            self.fill_nth_empty(k);
            proof {
                boards = boards.push(self@);
            }
            n = n + 1;
        }
        proof {
            if p.len() >= FILLED {
                assert(boards[0int + 1] == fill_rank(boards[0], p[0] as int % 16));
                assert(boards[1int + 1] == fill_rank(boards[1], p[1] as int % 15));
                assert(boards[2int + 1] == fill_rank(boards[2], p[2] as int % 14));
            }
        }
    }

    /// Empties the filled cell `i`, then fills a cell drawn uniformly among
    /// the empty ones, `i` included; returns the refilled cell.
    pub fn toggle_and_refill(&mut self, i: usize, dice: &mut Dice) -> (r: usize)
        requires
            old(self).wf(),
            i < CELLS,
            old(self)@[i as int],
        ensures
            final(self).wf(),
            refilled(old(self)@, final(self)@, i as int, r as int),
            count_filled(final(self)@) == count_filled(old(self)@),
            old(dice).pending().len() > 0 ==> empty_rank(old(self)@.update(i as int, false), r as int)
                == old(dice).pending()[0] as int % (CELLS - count_filled(old(self)@) + 1),
            old(dice).pending().len() > 0 ==> final(self)@ == fill_rank(
                old(self)@.update(i as int, false),
                old(dice).pending()[0] as int % (CELLS - count_filled(old(self)@) + 1),
            ),
            old(dice).pending().len() > 0 ==> final(dice).pending() == old(dice).pending().drop_first(),
            old(dice).pending().len() == 0 ==> final(dice).pending() == old(dice).pending(),
    {
        let ghost s0 = self@;
        let ghost p = dice.pending();
        proof {
            lemma_count_bound(self@);
            lemma_count_update(self@, i as int, false);
        }
        self.cells[i] = false;
        let ghost s1 = self@;
        assert(s1 == s0.update(i as int, false));
        let n = self.filled_count();
        assert(n + 1 == count_filled(s0));
        let k = dice.below(CELLS - n);
        assert(p.len() > 0 ==> k as int == p[0] as int % (CELLS - count_filled(s0) + 1));
        let r = self.fill_nth_empty(k);
        assert(self@ == fill_rank(s1, k as int));
        r
    }
}

/// The cell under the point `(mx, my)` of a board whose corner is at
/// `(ox, oy)` and whose edge is `size` long, or `None` outside the board.
pub open spec fn hit_cell(mx: int, my: int, ox: int, oy: int, size: int) -> Option<int> {
    if ox <= mx < ox + size && oy <= my < oy + size {
        let col = (mx - ox) * 4 / size;
        let row = (my - oy) * 4 / size;
        Some(col + 4 * row)
    } else {
        None
    }
}

proof fn lemma_quarter(d: int, s: int)
    requires
        0 <= d < s,
    ensures
        0 <= d * 4 / s < 4,
{
    assert(0 <= d * 4 / s < 4) by (nonlinear_arith)
        requires
            0 <= d < s,
    ;
}

/// The cell under a point, as [`hit_cell`] gives it.
pub fn hit_test(mx: i64, my: i64, ox: i64, oy: i64, size: i64) -> (r: Option<usize>)
    requires
        size > 0,
    ensures
        r == match hit_cell(mx as int, my as int, ox as int, oy as int, size as int) {
            Some(c) => Some(c as usize),
            None => None::<usize>,
        },
        r matches Some(c) ==> c < CELLS,
{
    let dx = mx as i128 - ox as i128;
    let dy = my as i128 - oy as i128;
    let s = size as i128;
    if 0 <= dx && dx < s && 0 <= dy && dy < s {
        let col = dx * 4 / s;
        let row = dy * 4 / s;
        proof {
            lemma_quarter(dx as int, s as int);
            lemma_quarter(dy as int, s as int);
        }
        Some((col + 4 * row) as usize)
    } else {
        None
    }
}

/// A point on the board lies in one of its cells.
pub proof fn lemma_hit_in_board(mx: int, my: int, ox: int, oy: int, size: int)
    requires
        size > 0,
    ensures
        hit_cell(mx, my, ox, oy, size) matches Some(c) ==> 0 <= c < CELLS,
{
    if ox <= mx < ox + size && oy <= my < oy + size {
        lemma_quarter(mx - ox, size);
        lemma_quarter(my - oy, size);
    }
}

/// A click on the corner of the board lands in the first cell; a click one
/// edge length to the right of the corner lands outside.
pub proof fn lemma_hit_edges(ox: int, oy: int, size: int)
    requires
        size > 0,
    ensures
        hit_cell(ox, oy, ox, oy, size) == Some(0int),
        hit_cell(ox + size, oy, ox, oy, size) is None,
{
}

} // verus!
