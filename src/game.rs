//! The screens of the game and the moves between them.

use crate::dice::Dice;
use crate::grid::{reset_board, FILLED};
use crate::highscore::{with_score, Highscore};
use crate::pattern::{
    after_frame, lemma_round_times_out, lemma_unclicked_prefix, played, refill_board, scores_click,
    total_us, unclicked_run, updated, viewed, FrameInput, Pattern, SCALE_MAX, SCALE_MIN,
};
use crate::settings::{GameSettings, Settings};
use vstd::prelude::*;

verus! {

/// The screen on show.
#[derive(Clone, Copy, Debug, PartialEq, Eq, Structural)]
pub enum GameState {
    Menu,
    Running,
    Highscore,
    Settings,
    Closing,
}

/// The entry of the menu under the cursor.
#[derive(Clone, Copy, Debug, PartialEq, Eq, Structural)]
pub enum MenuSelect {
    Run,
    Highscore,
    Settings,
    Close,
}

/// The menu entry after the arrow keys of `input`, held at both ends.
pub open spec fn moved_selection(sel: MenuSelect, input: FrameInput) -> MenuSelect {
    if input.key_up {
        match sel {
            MenuSelect::Run => MenuSelect::Run,
            MenuSelect::Highscore => MenuSelect::Run,
            MenuSelect::Settings => MenuSelect::Highscore,
            MenuSelect::Close => MenuSelect::Settings,
        }
    } else if input.key_down {
        match sel {
            MenuSelect::Run => MenuSelect::Highscore,
            MenuSelect::Highscore => MenuSelect::Settings,
            MenuSelect::Settings => MenuSelect::Close,
            MenuSelect::Close => MenuSelect::Close,
        }
    } else {
        sel
    }
}

/// The screen that a menu entry opens.
pub open spec fn opened_by(sel: MenuSelect) -> GameState {
    match sel {
        MenuSelect::Run => GameState::Running,
        MenuSelect::Highscore => GameState::Highscore,
        MenuSelect::Settings => GameState::Settings,
        MenuSelect::Close => GameState::Closing,
    }
}

/// The whole game: its screen, the round, the best scores and the random
/// source of the board.
pub struct Game {
    pub state: GameState,
    pub menu_selected: MenuSelect,
    pub pattern: Pattern,
    pub highscore: Highscore,
    pub settings: Settings,
    pub dice: Dice,
}

/// What one frame does to the game: on the menu the arrow keys move the
/// selection and Enter opens the selected screen, beginning a round for
/// Start; while running, Escape returns to the menu, the round plays its
/// frame, and the score of a finished round goes into the table; Escape
/// leaves the table and settings screens; Closing is final.
pub open spec fn game_stepped(pre: Game, post: Game, input: FrameInput) -> bool {
    post.wf() && match pre.state {
        GameState::Menu => {
            let sel = moved_selection(pre.menu_selected, input);
            &&& post.menu_selected == sel
            &&& post.highscore == pre.highscore
            &&& post.state == if input.key_enter {
                opened_by(sel)
            } else {
                GameState::Menu
            }
            &&& input.key_enter && sel == MenuSelect::Run ==> {
                &&& post.pattern.is_fresh(input.now_us)
                &&& post.pattern.same_view(pre.pattern)
                &&& pre.dice.pending().len() >= FILLED ==> post.pattern.grid@
                    == reset_board(pre.dice.pending())
            }
            &&& input.key_enter && sel == MenuSelect::Run && pre.dice.pending().len() >= FILLED
                ==> post.dice.pending() == pre.dice.pending().skip(3)
            &&& !(input.key_enter && sel == MenuSelect::Run) ==> post.pattern == pre.pattern
            &&& !(input.key_enter && sel == MenuSelect::Run) ==> post.dice.pending()
                == pre.dice.pending()
        },
        GameState::Running => {
            &&& post.state == if input.key_escape {
                GameState::Menu
            } else {
                GameState::Running
            }
            &&& post.menu_selected == pre.menu_selected
            &&& updated(pre.pattern, post.pattern, input)
            &&& !input.key_r ==> post.dice.pending() == after_frame(
                viewed(pre.pattern, post.pattern),
                input,
                pre.dice.pending(),
            )
            &&& !input.key_r && scores_click(
                viewed(pre.pattern, post.pattern),
                input,
            ) && pre.dice.pending().len() > 0 ==> post.pattern.grid@
                == refill_board(
                viewed(pre.pattern, post.pattern),
                input,
                pre.dice.pending()[0],
            )
            &&& post.highscore@ == if post.pattern.done
                && post.pattern.score > 0 {
                with_score(pre.highscore@, post.pattern.score)
            } else {
                pre.highscore@
            }
        },
        GameState::Highscore | GameState::Settings => {
            &&& post.state == if input.key_escape {
                GameState::Menu
            } else {
                pre.state
            }
            &&& post.menu_selected == pre.menu_selected
            &&& post.pattern == pre.pattern
            &&& post.highscore == pre.highscore
            &&& post.dice.pending() == pre.dice.pending()
        },
        GameState::Closing => {
            &&& post.state == GameState::Closing
            &&& post.menu_selected == pre.menu_selected
            &&& post.pattern == pre.pattern
            &&& post.highscore == pre.highscore
            &&& post.dice.pending() == pre.dice.pending()
        },
    }
}

impl Game {
    /// The round and the table are well formed.
    pub open spec fn wf(&self) -> bool {
        self.pattern.wf() && self.highscore.wf()
    }

    /// A game on the menu, with an empty table, drawing from `dice`.
    pub fn new(dice: Dice) -> (r: Game)
        ensures
            r.wf(),
            r.state == GameState::Menu,
            r.menu_selected == MenuSelect::Run,
            r.highscore@ == Seq::new(9, |i: int| 0u32),
            r.pattern.is_fresh(0),
            r.pattern.scale == 100,
            r.pattern.display_info,
            r.pattern.display_grid,
            dice.pending().len() >= FILLED ==> r.pattern.grid@ == reset_board(dice.pending()),
    {
        let mut dice = dice;
        let pattern = Pattern::new(&mut dice);
        Game {
            state: GameState::Menu,
            menu_selected: MenuSelect::Run,
            pattern,
            highscore: Highscore::new(),
            settings: Settings::new(),
            dice,
        }
    }

    /// Takes the scale of `options` for the board.
    pub fn apply_settings(&mut self, options: &GameSettings)
        requires
            old(self).wf(),
        ensures
            final(self).wf(),
            final(self).pattern == (Pattern {
                scale: if options.scale < SCALE_MIN {
                    SCALE_MIN
                } else if options.scale > SCALE_MAX {
                    SCALE_MAX
                } else {
                    options.scale
                },
                ..old(self).pattern
            }),
            final(self).highscore == old(self).highscore,
            final(self).state == old(self).state,
            final(self).menu_selected == old(self).menu_selected,
    {
        self.pattern.scale = if options.scale < SCALE_MIN {
            SCALE_MIN
        } else if options.scale > SCALE_MAX {
            SCALE_MAX
        } else {
            options.scale
        };
    }

    /// Takes `scores` as the table of best scores.
    pub fn restore_scores(&mut self, scores: Highscore)
        requires
            old(self).wf(),
            scores.wf(),
        ensures
            final(self).wf(),
            final(self).highscore@ == scores@,
            final(self).pattern == old(self).pattern,
            final(self).state == old(self).state,
            final(self).menu_selected == old(self).menu_selected,
    {
        self.highscore = scores;
    }

    /// One frame of the game.
    ///
    /// On the menu the arrow keys move the selection and Enter opens the
    /// selected screen, beginning a round for Start. While running, Escape
    /// returns to the menu, the round plays its frame, and the score of a
    /// finished round goes into the table. Escape leaves the table and
    /// settings screens. Closing is final.
    pub fn update(&mut self, input: &FrameInput)
        requires
            old(self).wf(),
        ensures
            final(self).wf(),
            game_stepped(*old(self), *final(self), *input),
    {
        match self.state {
            GameState::Menu => {
                if input.key_up {
                    self.menu_selected = match self.menu_selected {
                        MenuSelect::Run => MenuSelect::Run,
                        MenuSelect::Highscore => MenuSelect::Run,
                        MenuSelect::Settings => MenuSelect::Highscore,
                        MenuSelect::Close => MenuSelect::Settings,
                    };
                } else if input.key_down {
                    self.menu_selected = match self.menu_selected {
                        MenuSelect::Run => MenuSelect::Highscore,
                        MenuSelect::Highscore => MenuSelect::Settings,
                        MenuSelect::Settings => MenuSelect::Close,
                        MenuSelect::Close => MenuSelect::Close,
                    };
                }
                if input.key_enter {
                    match self.menu_selected {
                        MenuSelect::Run => {
                            self.pattern.setup(input.now_us, &mut self.dice);
                            self.state = GameState::Running;
                        },
                        MenuSelect::Highscore => {
                            self.state = GameState::Highscore;
                        },
                        MenuSelect::Settings => {
                            self.state = GameState::Settings;
                        },
                        MenuSelect::Close => {
                            self.state = GameState::Closing;
                        },
                    }
                }
            },
            GameState::Running => {
                if input.key_escape {
                    self.state = GameState::Menu;
                }
                self.pattern.update(input, &mut self.dice);
                let score = self.pattern.score;
                if self.pattern.done && score > 0 && !self.highscore.score_exist(score) {
                    self.highscore.add_score(score);
                } else {
                    proof {
                        if self.pattern.done && score > 0 {
                            crate::highscore::lemma_present_score_is_kept(self.highscore@, score);
                        }
                    }
                }
            },
            GameState::Highscore => {
                if input.key_escape {
                    self.state = GameState::Menu;
                }
            },
            GameState::Settings => {
                if input.key_escape {
                    self.state = GameState::Menu;
                }
            },
            GameState::Closing => {},
        }
    }
}

/// A frame with no key pressed and no click.
pub open spec fn quiet(input: FrameInput) -> bool {
    &&& !input.key_up
    &&& !input.key_down
    &&& !input.key_enter
    &&& !input.key_escape
    &&& !input.key_r
    &&& !input.key_tab
    &&& !input.key_g
    &&& !input.key_page_up
    &&& !input.key_page_down
    &&& !input.mouse_left
}

/// Each game of `games` follows the one before it by one frame of `frames`
/// at the same place, and no frame holds a key or a click.
pub open spec fn quiet_run(games: Seq<Game>, frames: Seq<FrameInput>) -> bool {
    &&& games.len() == frames.len() + 1
    &&& forall|k: int|
        0 <= k < frames.len() ==> quiet(#[trigger] frames[k]) && game_stepped(
            games[k],
            games[k + 1],
            frames[k],
        )
}

proof fn lemma_quiet_running(games: Seq<Game>, frames: Seq<FrameInput>, k: int)
    requires
        quiet_run(games, frames),
        games[0].wf(),
        games[0].state == GameState::Running,
        0 <= k <= frames.len(),
    ensures
        games[k].state == GameState::Running,
        games[k].wf(),
        k < frames.len() ==> played(games[k].pattern, games[k + 1].pattern, frames[k]),
    decreases k,
{
    if k > 0 {
        lemma_quiet_running(games, frames, k - 1);
        let f = frames[k - 1];
        assert(quiet(f) && game_stepped(games[k - 1], games[k], f));
    }
    if k < frames.len() {
        let f = frames[k];
        assert(quiet(f) && game_stepped(games[k], games[k + 1], f));
        assert(viewed(games[k].pattern, games[k + 1].pattern) == games[k].pattern);
    }
}

proof fn lemma_quiet_table(games: Seq<Game>, frames: Seq<FrameInput>, k: int)
    requires
        quiet_run(games, frames),
        games[0].wf(),
        games[0].state == GameState::Running,
        forall|j: int| 0 <= j <= frames.len() ==> (#[trigger] games[j]).pattern.score == 0,
        0 <= k <= frames.len(),
    ensures
        games[k].highscore@ == games[0].highscore@,
    decreases k,
{
    if k > 0 {
        lemma_quiet_table(games, frames, k - 1);
        lemma_quiet_running(games, frames, k - 1);
        let f = frames[k - 1];
        assert(quiet(f) && game_stepped(games[k - 1], games[k], f));
        assert(games[k].pattern.score == 0);
    }
}

/// A running round that has just begun, left alone for frames whose
/// lengths before the last one add up to at least the time left, is over
/// with no time left and a score of zero; the table of best scores is as
/// it was and the game is still running.
pub proof fn lemma_game_times_out(games: Seq<Game>, frames: Seq<FrameInput>)
    requires
        quiet_run(games, frames),
        frames.len() >= 1,
        games[0].wf(),
        games[0].state == GameState::Running,
        !games[0].pattern.done,
        games[0].pattern.score == 0,
        total_us(frames.drop_last()) >= games[0].pattern.time,
    ensures
        games.last().state == GameState::Running,
        games.last().pattern.done,
        games.last().pattern.time == 0,
        games.last().pattern.score == 0,
        games.last().highscore@ == games[0].highscore@,
{
    let n = frames.len() as int;
    let rounds = Seq::new((n + 1) as nat, |k: int| games[k].pattern);
    assert forall|k: int| 0 <= k < n implies !(#[trigger] frames[k]).mouse_left && played(
        rounds[k],
        rounds[k + 1],
        frames[k],
    ) by {
        lemma_quiet_running(games, frames, k);
    }
    assert(unclicked_run(rounds, frames));
    assert forall|j: int| 0 <= j <= n implies (#[trigger] games[j]).pattern.score == 0 by {
        lemma_unclicked_prefix(rounds, frames, j);
    }
    lemma_round_times_out(rounds, frames);
    lemma_quiet_running(games, frames, n);
    lemma_quiet_table(games, frames, n);
}

} // verus!
