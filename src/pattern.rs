//! The round engine: the board, the timer, the score and the multiplier.
//!
//! Times are whole microseconds. The scale is a percentage of the base
//! board size. Positions and screen sizes are in quarter pixels, so that a
//! board of any scale has its corner and its edge on whole units.

use crate::dice::Dice;
use crate::grid::{count_filled, fill_rank, hit_cell, hit_test, refilled, reset_board, Grid, FILLED};
use vstd::prelude::*;

verus! {

/// Length of a round in microseconds.
pub const ROUND_US: u64 = 30_000_000;

/// Smallest scale, in percent.
pub const SCALE_MIN: u32 = 50;

/// Largest scale, in percent.
pub const SCALE_MAX: u32 = 300;

/// Change of scale for one key press, in percent.
pub const SCALE_STEP: u32 = 25;

/// Board edge in quarter pixels for each percent of scale: at full scale
/// the board is 250 pixels wide.
pub const UNITS_PER_PERCENT: u32 = 10;

/// Microseconds of elapsed time, per click so far, that add one to the
/// multiplier.
pub const MULTIPLIER_PERIOD_US: u128 = 4_500_000;

/// What the player did during one frame, and when.
#[derive(Clone, Copy, Debug)]
pub struct FrameInput {
    pub key_up: bool,
    pub key_down: bool,
    pub key_enter: bool,
    pub key_escape: bool,
    pub key_r: bool,
    pub key_tab: bool,
    pub key_g: bool,
    pub key_page_up: bool,
    pub key_page_down: bool,
    /// The left mouse button went down during this frame.
    pub mouse_left: bool,
    pub mouse_x: i64,
    pub mouse_y: i64,
    pub screen_w: u32,
    pub screen_h: u32,
    /// Length of the frame in microseconds.
    pub frame_us: u64,
    /// The clock, in microseconds.
    pub now_us: u64,
}

/// `a - b`, or zero where `b` is the larger.
pub open spec fn sat_sub(a: u64, b: u64) -> u64 {
    if a >= b {
        (a - b) as u64
    } else {
        0
    }
}

/// `a + b`, or the largest `u32` where the sum does not fit.
pub open spec fn sat_add(a: u32, b: u32) -> u32 {
    if a + b <= u32::MAX {
        (a + b) as u32
    } else {
        u32::MAX
    }
}

/// The multiplier: one plus the elapsed time since the last scoring click
/// times the clicks so far over 4.5 seconds, rounded down, and held at
/// the largest `u16`.
pub open spec fn multiplier_value(clicks: u64, elapsed_us: u64) -> u16 {
    let m = 1 + (elapsed_us * clicks) / (MULTIPLIER_PERIOD_US as int);
    if m > u16::MAX {
        u16::MAX
    } else {
        m as u16
    }
}

/// The scale after the page keys of `input`, held within its bounds.
pub open spec fn stepped_scale(scale: u32, input: FrameInput) -> u32 {
    let raw: int = if input.key_page_up {
        scale + SCALE_STEP
    } else if input.key_page_down {
        scale - SCALE_STEP
    } else {
        scale as int
    };
    if raw > SCALE_MAX {
        SCALE_MAX
    } else if raw < SCALE_MIN {
        SCALE_MIN
    } else {
        raw as u32
    }
}

/// The board edge at `scale`, in quarter pixels.
pub open spec fn board_size(scale: u32) -> int {
    UNITS_PER_PERCENT * scale
}

/// Where a centred board of `scale` starts on a screen side `screen` long.
pub open spec fn board_origin(screen: u32, scale: u32) -> int {
    screen / 2 - board_size(scale) / 2
}

/// The cell that the click of `input` lands on, at `scale`.
pub open spec fn click_cell(input: FrameInput, scale: u32) -> Option<int> {
    if input.mouse_left {
        hit_cell(
            input.mouse_x as int,
            input.mouse_y as int,
            board_origin(input.screen_w, scale),
            board_origin(input.screen_h, scale),
            board_size(scale),
        )
    } else {
        None
    }
}

/// One round of play with its display settings.
pub struct Pattern {
    pub score: u32,
    pub multiplier: u16,
    /// Scale of the board, in percent.
    pub scale: u32,
    /// Time left in the round, in microseconds.
    pub time: u64,
    pub done: bool,
    /// Scoring clicks since the round began.
    pub clicks: u64,
    /// Where the click that ended the round landed.
    pub last_click_pos: (i64, i64),
    /// The clock at the start of the round or at the last scoring click.
    pub last_time_clicked: u64,
    pub display_info: bool,
    pub display_grid: bool,
    pub grid: Grid,
}

/// What one frame of play does to a round whose display settings are
/// already those of the frame.
pub open spec fn played(pre: Pattern, post: Pattern, input: FrameInput) -> bool {
    if pre.done {
        post == pre
    } else if pre.time == 0 {
        post == (Pattern { done: true, ..pre })
    } else {
        let time = sat_sub(pre.time, input.frame_us);
        let m = multiplier_value(pre.clicks, sat_sub(input.now_us, pre.last_time_clicked));
        let ticked = Pattern { time, multiplier: m, ..pre };
        match click_cell(input, pre.scale) {
            None => post == ticked,
            Some(c) => if pre.grid@[c] {
                &&& post == (Pattern {
                    score: sat_add(pre.score, m as u32),
                    clicks: if pre.clicks < u64::MAX {
                        (pre.clicks + 1) as u64
                    } else {
                        pre.clicks
                    },
                    last_time_clicked: input.now_us,
                    grid: post.grid,
                    ..ticked
                })
                &&& post.grid.wf()
                &&& exists|j: int| refilled(pre.grid@, post.grid@, c, j)
            } else {
                post == (Pattern { last_click_pos: (input.mouse_x, input.mouse_y), done: true, ..ticked })
            },
        }
    }
}

/// What one frame does to a round: the page keys change the scale, Tab and
/// G toggle the overlays, R begins a new round at the frame's clock, and
/// the frame is then played.
pub open spec fn updated(pre: Pattern, post: Pattern, input: FrameInput) -> bool {
    &&& post.scale == stepped_scale(pre.scale, input)
    &&& post.display_info == (pre.display_info != input.key_tab)
    &&& post.display_grid == (pre.display_grid != input.key_g)
    &&& !input.key_r ==> played(
        (Pattern {
            scale: post.scale,
            display_info: post.display_info,
            display_grid: post.display_grid,
            ..pre
        }),
        post,
        input,
    )
    &&& input.key_r ==> exists|fresh: Pattern|
        fresh.is_fresh(input.now_us) && fresh.same_view(post) && #[trigger] played(
            fresh,
            post,
            input,
        )
}

/// The frame of `input` clicks a filled cell of a running round.
pub open spec fn scores_click(pre: Pattern, input: FrameInput) -> bool {
    let hit = click_cell(input, pre.scale);
    !pre.done && pre.time > 0 && hit is Some && pre.grid@[hit->Some_0]
}

/// The board after the click of `input` empties its cell of `pre` and the
/// draw `draw` refills one of the fourteen empty cells.
pub open spec fn refill_board(pre: Pattern, input: FrameInput, draw: usize) -> Seq<bool> {
    fill_rank(pre.grid@.update(click_cell(input, pre.scale)->Some_0, false), draw as int % 14)
}

/// The scripted draws left after a frame of `pre`: a click on a filled cell
/// takes one, any other frame none.
pub open spec fn after_frame(pre: Pattern, input: FrameInput, draws: Seq<usize>) -> Seq<usize> {
    if scores_click(pre, input) && draws.len() > 0 {
        draws.drop_first()
    } else {
        draws
    }
}

/// `pre` with the display settings of `post`.
pub open spec fn viewed(pre: Pattern, post: Pattern) -> Pattern {
    Pattern {
        scale: post.scale,
        display_info: post.display_info,
        display_grid: post.display_grid,
        ..pre
    }
}

impl Pattern {
    /// The round is within its bounds, with three filled cells.
    pub open spec fn wf(&self) -> bool {
        &&& self.time <= ROUND_US
        &&& SCALE_MIN <= self.scale <= SCALE_MAX
        &&& self.grid.wf()
        &&& count_filled(self.grid@) == FILLED
    }

    /// The round as it stands right after it begins at `now`.
    pub open spec fn is_fresh(&self, now: u64) -> bool {
        &&& self.score == 0
        &&& self.multiplier == 1
        &&& self.time == ROUND_US
        &&& self.clicks == 0
        &&& self.last_click_pos == (0i64, 0i64)
        &&& self.last_time_clicked == now
        &&& !self.done
        &&& self.grid.wf()
        &&& count_filled(self.grid@) == FILLED
    }

    /// The display settings of two rounds agree.
    pub open spec fn same_view(&self, other: Pattern) -> bool {
        &&& self.scale == other.scale
        &&& self.display_info == other.display_info
        &&& self.display_grid == other.display_grid
    }

    /// A round that begins at time zero, at full scale, with both overlays
    /// shown.
    pub fn new(dice: &mut Dice) -> (r: Pattern)
        ensures
            r.wf(),
            r.is_fresh(0),
            r.scale == 100,
            r.display_info,
            r.display_grid,
            old(dice).pending().len() >= FILLED ==> r.grid@ == reset_board(old(dice).pending()),
    {
        let mut grid = Grid::empty();
        grid.reset(dice);
        Pattern {
            score: 0,
            multiplier: 1,
            scale: 100,
            time: ROUND_US,
            done: false,
            clicks: 0,
            last_click_pos: (0, 0),
            last_time_clicked: 0,
            display_info: true,
            display_grid: true,
            grid,
        }
    }

    /// Begins a new round at `now`, keeping the display settings.
    pub fn setup(&mut self, now: u64, dice: &mut Dice)
        requires
            SCALE_MIN <= old(self).scale <= SCALE_MAX,
        ensures
            final(self).wf(),
            final(self).is_fresh(now),
            final(self).same_view(*old(self)),
            old(dice).pending().len() >= FILLED ==> final(self).grid@ == reset_board(
                old(dice).pending(),
            ),
            old(dice).pending().len() >= FILLED ==> final(dice).pending() == old(dice).pending().skip(
                3,
            ),
    {
        self.score = 0;
        self.multiplier = 1;
        self.time = ROUND_US;
        self.clicks = 0;
        self.last_click_pos = (0, 0);
        self.last_time_clicked = now;
        self.done = false;
        self.grid.reset(dice);
    }

    /// One frame of play: the clock runs, the multiplier follows it, and a
    /// click on the board scores or ends the round.
    pub fn play(&mut self, input: &FrameInput, dice: &mut Dice)
        requires
            old(self).wf(),
        ensures
            final(self).wf(),
            played(*old(self), *final(self), *input),
            scores_click(*old(self), *input) && old(dice).pending().len() > 0 ==> final(self).grid@
                == refill_board(*old(self), *input, old(dice).pending()[0]),
            final(dice).pending() == after_frame(*old(self), *input, old(dice).pending()),
    {
        if self.done {
            return;
        }
        if self.time == 0 {
            self.done = true;
            return;
        }
        self.time = if self.time >= input.frame_us {
            self.time - input.frame_us
        } else {
            0
        };
        let elapsed = if input.now_us >= self.last_time_clicked {
            input.now_us - self.last_time_clicked
        } else {
            0
        };
        self.multiplier = multiplier_for(self.clicks, elapsed);
        if !input.mouse_left {
            return;
        }
        let size = (UNITS_PER_PERCENT * self.scale) as i64;
        let ox = (input.screen_w / 2) as i64 - size / 2;
        let oy = (input.screen_h / 2) as i64 - size / 2;
        match hit_test(input.mouse_x, input.mouse_y, ox, oy, size) {
            None => {},
            Some(c) => {
                if self.grid.is_filled(c) {
                    let ghost before = self.grid@;
                    let j = self.grid.toggle_and_refill(c, dice);
                    assert(refilled(before, self.grid@, c as int, j as int));
                    let m = self.multiplier as u32;
                    self.score = if self.score <= u32::MAX - m {
                        self.score + m
                    } else {
                        u32::MAX
                    };
                    self.last_time_clicked = input.now_us;
                    if self.clicks < u64::MAX {
                        self.clicks = self.clicks + 1;
                    }
                } else {
                    self.last_click_pos = (input.mouse_x, input.mouse_y);
                    self.done = true;
                }
            },
        }
    }

    /// One frame: the page keys change the scale, R begins a new round
    /// (also after the end of one), Tab and G toggle the overlays, and then
    /// the frame is played.
    pub fn update(&mut self, input: &FrameInput, dice: &mut Dice)
        requires
            old(self).wf(),
        ensures
            final(self).wf(),
            updated(*old(self), *final(self), *input),
            !input.key_r && scores_click(viewed(*old(self), *final(self)), *input) && old(
                dice,
            ).pending().len() > 0 ==> final(self).grid@ == refill_board(
                viewed(*old(self), *final(self)),
                *input,
                old(dice).pending()[0],
            ),
            !input.key_r ==> final(dice).pending() == after_frame(
                viewed(*old(self), *final(self)),
                *input,
                old(dice).pending(),
            ),
            input.key_r && old(dice).pending().len() >= FILLED ==> exists|fresh: Pattern|
                {
                    &&& fresh.is_fresh(input.now_us)
                    &&& fresh.same_view(*final(self))
                    &&& fresh.grid@ == reset_board(old(dice).pending())
                    &&& #[trigger] played(fresh, *final(self), *input)
                    &&& scores_click(fresh, *input) && old(dice).pending().len() > FILLED
                        ==> final(self).grid@ == refill_board(
                        fresh,
                        *input,
                        old(dice).pending()[3],
                    )
                    &&& final(dice).pending() == after_frame(
                        fresh,
                        *input,
                        old(dice).pending().skip(3),
                    )
                },
    {
        if input.key_page_up {
            self.scale = self.scale + SCALE_STEP;
        } else if input.key_page_down {
            self.scale = self.scale - SCALE_STEP;
        }
        if self.scale > SCALE_MAX {
            self.scale = SCALE_MAX;
        } else if self.scale < SCALE_MIN {
            self.scale = SCALE_MIN;
        }
        if input.key_tab {
            self.display_info = !self.display_info;
        }
        if input.key_g {
            self.display_grid = !self.display_grid;
        }
        if input.key_r {
            self.setup(input.now_us, dice);
        }
        let ghost mid = *self;
        let ghost p = dice.pending();
        self.play(input, dice);
        assert(played(mid, *self, *input));
        proof {
            if input.key_r && old(dice).pending().len() > FILLED {
                assert(p[0] == old(dice).pending()[3]);
            }
        }
    }

    /// The board edge, in quarter pixels.
    pub fn tile_size(&self) -> (r: i64)
        requires
            self.scale <= SCALE_MAX,
        ensures
            r == board_size(self.scale),
    {
        (UNITS_PER_PERCENT * self.scale) as i64
    }
}

/// The multiplier after `elapsed_us` microseconds with `clicks` scoring
/// clicks so far.
pub fn multiplier_for(clicks: u64, elapsed_us: u64) -> (r: u16)
    ensures
        r == multiplier_value(clicks, elapsed_us),
{
    let e = elapsed_us as u128;
    let c = clicks as u128;
    assert(e * c <= u64::MAX * u64::MAX) by (nonlinear_arith)
        requires
            e <= u64::MAX,
            c <= u64::MAX,
    ;
    let q = e * c / MULTIPLIER_PERIOD_US;
    if q >= u16::MAX as u128 {
        u16::MAX
    } else {
        (q + 1) as u16
    }
}

/// With no scoring click yet, the multiplier is one however long ago the
/// round began.
pub proof fn lemma_first_multiplier(elapsed_us: u64)
    ensures
        multiplier_value(0, elapsed_us) == 1,
{
}

/// Within a round the time left stays within the round length and never
/// grows.
pub proof fn lemma_time_never_grows(pre: Pattern, post: Pattern, input: FrameInput)
    requires
        pre.wf(),
        played(pre, post, input),
    ensures
        post.time <= pre.time,
        post.time <= ROUND_US,
{
}

/// Within a round the score never drops; a click on a filled cell adds
/// exactly the multiplier in force (held at the largest `u32`), and any
/// other frame leaves the score as it is.
pub proof fn lemma_score_never_drops(pre: Pattern, post: Pattern, input: FrameInput)
    requires
        played(pre, post, input),
    ensures
        post.score >= pre.score,
        scores_click(pre, input) ==> post.score == sat_add(pre.score, post.multiplier as u32),
        scores_click(pre, input) && pre.score + post.multiplier <= u32::MAX ==> post.score
            == pre.score + post.multiplier,
        !scores_click(pre, input) ==> post.score == pre.score,
{
}

/// Total length of a run of frames, in microseconds.
pub open spec fn total_us(frames: Seq<FrameInput>) -> int
    decreases frames.len(),
{
    if frames.len() == 0 {
        0
    } else {
        total_us(frames.drop_last()) + frames.last().frame_us
    }
}

/// Each round of `states` follows the one before it by playing the frame of
/// `frames` at the same place, and no frame holds a click.
pub open spec fn unclicked_run(states: Seq<Pattern>, frames: Seq<FrameInput>) -> bool {
    &&& states.len() == frames.len() + 1
    &&& forall|k: int|
        0 <= k < frames.len() ==> !(#[trigger] frames[k]).mouse_left && played(
            states[k],
            states[k + 1],
            frames[k],
        )
}

pub(crate) proof fn lemma_unclicked_prefix(states: Seq<Pattern>, frames: Seq<FrameInput>, k: int)
    requires
        unclicked_run(states, frames),
        0 <= k <= frames.len(),
        !states[0].done,
    ensures
        states[k].score == states[0].score,
        states[k].done ==> states[k].time == 0,
        !states[k].done ==> states[k].time == if total_us(frames.take(k)) >= states[0].time {
            0
        } else {
            states[0].time - total_us(frames.take(k))
        },
    decreases k,
{
    if k == 0 {
        assert(frames.take(0) =~= Seq::<FrameInput>::empty());
    } else {
        lemma_unclicked_prefix(states, frames, k - 1);
        assert(frames.take(k).drop_last() =~= frames.take(k - 1));
        let f = frames[k - 1];
        assert(!f.mouse_left && played(states[k - 1], states[k], f));
    }
}

/// A round with no clicks is over, with no time left and its score as it
/// was, once a frame is played after the time has run out: the frames
/// before the last one add up to at least the time that was left.
pub proof fn lemma_round_times_out(states: Seq<Pattern>, frames: Seq<FrameInput>)
    requires
        unclicked_run(states, frames),
        frames.len() >= 1,
        !states[0].done,
        total_us(frames.drop_last()) >= states[0].time,
    ensures
        states.last().done,
        states.last().time == 0,
        states.last().score == states[0].score,
{
    let n = frames.len() as int;
    lemma_unclicked_prefix(states, frames, n - 1);
    lemma_unclicked_prefix(states, frames, n);
    assert(frames.take(n - 1) =~= frames.drop_last());
    let f = frames[n - 1];
    assert(!f.mouse_left && played(states[n - 1], states[n], f));
}

/// Once a round is over, playing a frame changes nothing.
pub proof fn lemma_done_is_final(pre: Pattern, post: Pattern, input: FrameInput)
    requires
        pre.done,
        played(pre, post, input),
    ensures
        post == pre,
{
}

/// A click that misses the board does what a frame without a click does.
pub proof fn lemma_click_off_board(pre: Pattern, post: Pattern, input: FrameInput)
    requires
        input.mouse_left,
        click_cell(input, pre.scale) is None,
    ensures
        played(pre, post, input) == played(pre, post, FrameInput { mouse_left: false, ..input }),
{
}

/// However often the page keys are pressed, the scale stays within its
/// bounds.
pub proof fn lemma_scale_bounds(scale: u32, input: FrameInput)
    ensures
        SCALE_MIN <= stepped_scale(scale, input) <= SCALE_MAX,
{
}

/// Every frame keeps three filled cells on the board.
pub proof fn lemma_three_filled(pre: Pattern, post: Pattern, input: FrameInput)
    requires
        pre.wf(),
        played(pre, post, input),
    ensures
        post.grid.wf(),
        count_filled(post.grid@) == FILLED,
{
    let c = click_cell(input, pre.scale);
    crate::grid::lemma_hit_in_board(
        input.mouse_x as int,
        input.mouse_y as int,
        board_origin(input.screen_w, pre.scale),
        board_origin(input.screen_h, pre.scale),
        board_size(pre.scale),
    );
    if !pre.done && pre.time > 0 && c is Some && pre.grid@[c->Some_0] {
        let j = choose|j: int| refilled(pre.grid@, post.grid@, c->Some_0, j);
        crate::grid::lemma_refill_count(pre.grid@, post.grid@, c->Some_0, j);
    }
}

} // verus!
