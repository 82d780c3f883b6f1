//! The controller: it buffers the player's direction, refuses reversals,
//! advances the board one tick at a time and hands out snapshots.

use vstd::prelude::*;
use crate::board::{occupancy, Board, Loong};
use crate::rules::{
    all_on_grid, apart, board_step, board_step_from, chained, food_after_spawn, linked,
    replenished,
};
use crate::err::{LoongCtrlErr, LoongCtrlResult};
use crate::full_state::{
    all_aligned, all_within, calc_full_state, classified, flipped_parts, mirror_points,
    mirrored_all, LoongCtrlFullState,
};
use crate::geometry::{Direction, Point};
use crate::matrix::Matrix;
use crate::options::{InnerCfg, Options};

verus! {

/// A running game.
pub struct LoongCtrl {
    next_direction: Direction,
    current_direction: Direction,
    board: Board,
    cfg: InnerCfg,
}

/// A copy of the position: the creature, the food, and the directions of
/// head and tail.
pub struct LoongCtrlState {
    pub loong: Loong,
    pub food: Vec<Point>,
    pub head_direction: Direction,
    pub tail_direction: Direction,
}

/// A chained body on the grid has aligned neighbours and stays within the
/// grid's height.
pub proof fn lemma_chained_is_aligned(body: Seq<Point>, cfg: InnerCfg)
    requires
        chained(body, cfg),
        all_on_grid(body, cfg),
    ensures
        all_aligned(body),
        all_within(body, cfg.dimension_y),
{
    assert forall|i: int| 0 <= i < body.len() - 1 implies (#[trigger] body[i]).aligned(
        body[i + 1],
    ) by {
        assert(linked(body[i], body[i + 1], cfg));
    }
}

impl LoongCtrl {
    /// The creature's cells, head first.
    pub closed spec fn body(&self) -> Seq<Point> {
        self.board.loong.body@
    }

    /// The food's cells.
    pub closed spec fn food(&self) -> Seq<Point> {
        self.board.food.positions@
    }

    /// The configuration the game was built with.
    pub closed spec fn config(&self) -> InnerCfg {
        self.cfg
    }

    /// The direction of the most recent tick.
    pub closed spec fn current(&self) -> Direction {
        self.current_direction
    }

    /// The direction that the next tick will take.
    pub closed spec fn pending(&self) -> Direction {
        self.next_direction
    }

    /// Body and food lie on the grid and the body is chained.
    pub closed spec fn wf(&self) -> bool {
        self.board.wf() && self.board.cfg == self.cfg
    }

    /// No cell is taken twice, by segments or food.
    pub closed spec fn intact(&self) -> bool {
        self.board.intact()
    }

    /// What `wf` and `intact` say, over the public views.
    pub proof fn lemma_wf_unfolded(&self)
        ensures
            self.wf() ==> all_on_grid(self.body(), self.config()) && all_on_grid(
                self.food(),
                self.config(),
            ) && chained(self.body(), self.config()),
            self.intact() ==> self.body().no_duplicates() && self.food().no_duplicates()
                && apart(self.body(), self.food()),
    {
    }

    /// A game that has just started under `cfg`: the initial body, both
    /// directions to the right, and at most one food item, none where food
    /// does not replenish itself.
    pub open spec fn fresh(&self, cfg: InnerCfg) -> bool {
        &&& self.config() == cfg
        &&& self.current() == Direction::Right
        &&& self.pending() == Direction::Right
        &&& self.body() == Board::initial_body(cfg)
        &&& if cfg.auto_gen_food {
            replenished(cfg, self.body(), Seq::<Point>::empty(), self.food())
        } else {
            self.food() == Seq::<Point>::empty()
        }
    }

    /// A game that has just started under `cfg`, with `draws` as the cells
    /// drawn for its first food.
    pub open spec fn fresh_from(&self, cfg: InnerCfg, draws: Seq<Point>) -> bool {
        &&& self.config() == cfg
        &&& self.current() == Direction::Right
        &&& self.pending() == Direction::Right
        &&& self.body() == Board::initial_body(cfg)
        &&& self.food() == if cfg.auto_gen_food {
            food_after_spawn(cfg, Board::initial_body(cfg), Seq::<Point>::empty(), draws)
        } else {
            Seq::<Point>::empty()
        }
    }

    /// A game on a fresh board, heading right, whose first food is the
    /// first vacant cell of `draws`; `InitLoongSizeIsBig` if the creature
    /// does not fit.
    pub fn new_from(opts: &Options, draws: &Vec<Point>) -> (r: LoongCtrlResult<Self>)
        ensures
            Board::oversized(InnerCfg::of(*opts)) ==> (r matches Err(e) && e
                == LoongCtrlErr::InitLoongSizeIsBig),
            !Board::oversized(InnerCfg::of(*opts)) ==> (r matches Ok(c) && c.fresh_from(
                InnerCfg::of(*opts),
                draws@,
            ) && c.wf() && c.intact()),
    {
        let cfg = InnerCfg::from_options(opts);
        let board = match Board::new_from(cfg, draws) {
            Ok(b) => b,
            Err(e) => {
                return Err(e);
            },
        };
        Ok(
            LoongCtrl {
                next_direction: Direction::Right,
                board,
                cfg,
                current_direction: Direction::Right,
            },
        )
    }

    /// A game on a fresh board, heading right; `InitLoongSizeIsBig` if the
    /// creature does not fit.
    pub fn new(opts: &Options) -> (r: LoongCtrlResult<Self>)
        ensures
            Board::oversized(InnerCfg::of(*opts)) ==> (r matches Err(e) && e
                == LoongCtrlErr::InitLoongSizeIsBig),
            !Board::oversized(InnerCfg::of(*opts)) ==> (r matches Ok(c) && c.fresh(
                InnerCfg::of(*opts),
            ) && c.wf() && c.intact()),
    {
        let cfg = InnerCfg::from_options(opts);
        let board = match Board::new(cfg) {
            Ok(b) => b,
            Err(e) => {
                return Err(e);
            },
        };
        Ok(
            LoongCtrl {
                next_direction: Direction::Right,
                board,
                cfg,
                current_direction: Direction::Right,
            },
        )
    }

    /// Asks for `direction` on the next tick. A reversal of the current
    /// direction changes nothing; it is an error where the configuration
    /// makes reversals fatal, and silently dropped where not.
    pub fn direction_to(&mut self, direction: Direction) -> (r: LoongCtrlResult<()>)
        ensures
            final(self).body() == old(self).body(),
            final(self).food() == old(self).food(),
            final(self).config() == old(self).config(),
            final(self).current() == old(self).current(),
            final(self).wf() == old(self).wf(),
            final(self).intact() == old(self).intact(),
            old(self).current().spec_opposite() == direction ==> *final(self) == *old(self),
            old(self).current().spec_opposite() == direction && old(self).config().fail_on_revert
                ==> r == Err::<(), LoongCtrlErr>(LoongCtrlErr::LoongAteItself),
            old(self).current().spec_opposite() == direction && !old(self).config().fail_on_revert
                ==> r.is_ok(),
            old(self).current().spec_opposite() != direction ==> r.is_ok() && final(self).pending()
                == direction,
    {
        let is_opposite_direction = self.current_direction.opposite_direction() == direction;
        if self.cfg.fail_on_revert && is_opposite_direction {
            return Err(LoongCtrlErr::LoongAteItself);
        }
        if !is_opposite_direction {
            self.next_direction = direction;
        }
        Ok(())
    }

    /// The number of segments the creature has.
    pub fn loong_size(&self) -> (r: usize)
        ensures
            r == self.body().len(),
    {
        self.board.loong.body.len()
    }

    /// The direction of the most recent tick.
    pub fn current_direction(&self) -> (r: Direction)
        ensures
            r == self.current(),
    {
        self.current_direction
    }

    /// Commits the pending direction and advances the board by one tick.
    /// `Ok(true)` means that food was eaten.
    pub fn next_tick(&mut self) -> (r: LoongCtrlResult<bool>)
        requires
            old(self).wf(),
        ensures
            final(self).wf(),
            final(self).config() == old(self).config(),
            final(self).current() == old(self).pending(),
            final(self).pending() == old(self).pending(),
            board_step(
                old(self).config(),
                old(self).body(),
                old(self).food(),
                old(self).pending(),
                r,
                final(self).body(),
                final(self).food(),
            ),
            old(self).intact() && r.is_ok() ==> final(self).intact(),
    {
        self.current_direction = self.next_direction;
        self.board.move_loong(self.next_direction)
    }

    /// Commits the pending direction and advances the board by one tick,
    /// with `draws` as the cells drawn for new food: after a meal, where
    /// food replenishes itself, the first vacant cell of `draws` becomes
    /// food.
    pub fn next_tick_from(&mut self, draws: &Vec<Point>) -> (r: LoongCtrlResult<bool>)
        requires
            old(self).wf(),
        ensures
            final(self).wf(),
            final(self).config() == old(self).config(),
            final(self).current() == old(self).pending(),
            final(self).pending() == old(self).pending(),
            board_step_from(
                old(self).config(),
                old(self).body(),
                old(self).food(),
                old(self).pending(),
                draws@,
                r,
                final(self).body(),
                final(self).food(),
            ),
            old(self).intact() && r.is_ok() ==> final(self).intact(),
    {
        self.current_direction = self.next_direction;
        self.board.move_loong_from(self.next_direction, draws)
    }

    /// Starts over, with `draws` as the cells drawn for the first food: a
    /// fresh board, heading right, under the same configuration.
    pub fn restart_from(&mut self, draws: &Vec<Point>) -> (r: LoongCtrlResult<()>)
        requires
            old(self).wf(),
        ensures
            final(self).wf(),
            final(self).config() == old(self).config(),
            final(self).current() == Direction::Right,
            final(self).pending() == Direction::Right,
            Board::oversized(old(self).config()) ==> (r matches Err(e) && e
                == LoongCtrlErr::InitLoongSizeIsBig) && final(self).body() == old(self).body()
                && final(self).food() == old(self).food(),
            !Board::oversized(old(self).config()) ==> r.is_ok() && final(self).fresh_from(
                old(self).config(),
                draws@,
            ) && final(self).intact(),
    {
        self.next_direction = Direction::Right;
        self.current_direction = Direction::Right;
        self.board.restart_from(draws)
    }

    /// Starts over: a fresh board, heading right, under the same
    /// configuration.
    pub fn restart(&mut self) -> (r: LoongCtrlResult<()>)
        requires
            old(self).wf(),
        ensures
            final(self).wf(),
            final(self).config() == old(self).config(),
            final(self).current() == Direction::Right,
            final(self).pending() == Direction::Right,
            Board::oversized(old(self).config()) ==> (r matches Err(e) && e
                == LoongCtrlErr::InitLoongSizeIsBig) && final(self).body() == old(self).body()
                && final(self).food() == old(self).food(),
            !Board::oversized(old(self).config()) ==> r.is_ok() && final(self).fresh(
                old(self).config(),
            ) && final(self).intact(),
    {
        self.next_direction = Direction::Right;
        self.current_direction = Direction::Right;
        self.board.restart()
    }

    /// A copy of the position. The tail's direction is the one in which the
    /// last segment lies as seen from the one before it.
    pub fn get_state(&self) -> (r: LoongCtrlState)
        requires
            self.wf(),
            self.body().len() >= 2,
        ensures
            r.loong.body@ == self.body(),
            r.food@ == self.food(),
            r.head_direction == self.current(),
            Some(r.tail_direction) == self.body().last().offset_from(
                self.body()[self.body().len() - 2],
            ),
    {
        let loong = self.board.clone_loong();
        let food = self.board.clone_food();
        let head_direction = self.current_direction;
        let n = loong.body.len();
        let tail = loong.body[n - 1];
        let pre_tail = loong.body[n - 2];
        proof {
            lemma_chained_is_aligned(self.body(), self.cfg);
            assert(self.body()[n - 2].aligned(self.body()[n - 2 + 1]));
        }
        let tail_direction = match tail.offset_from_near(&pre_tail) {
            Some(d) => d,
            None => head_direction,
        };
        LoongCtrlState { loong, food, head_direction, tail_direction }
    }

    /// The classified position.
    pub fn get_full_state(&self) -> (r: LoongCtrlFullState)
        requires
            self.wf(),
            self.body().len() >= 1,
        ensures
            r.direction == self.current(),
            r.loong@ == classified(self.body(), self.current()),
            r.food@ == self.food(),
    {
        proof {
            lemma_chained_is_aligned(self.body(), self.cfg);
        }
        calc_full_state(
            &self.board.loong,
            &self.board.food,
            self.current_direction,
            self.cfg.dimension_y,
            false,
        )
    }

    /// The classified position, mirrored on the horizontal axis.
    pub fn get_full_state_reversed_y(&self) -> (r: LoongCtrlFullState)
        requires
            self.wf(),
            self.body().len() >= 1,
        ensures
            r.direction == self.current(),
            r.loong@ == flipped_parts(
                classified(self.body(), self.current()),
                self.config().dimension_y,
            ),
            r.food@ == mirrored_all(self.food(), self.config().dimension_y),
    {
        proof {
            lemma_chained_is_aligned(self.body(), self.cfg);
        }
        calc_full_state(
            &self.board.loong,
            &self.board.food,
            self.current_direction,
            self.cfg.dimension_y,
            true,
        )
    }

    /// A copy of the position, mirrored on the horizontal axis. The two
    /// directions are those of the position as it is.
    pub fn get_state_reversed_y(&self) -> (r: LoongCtrlState)
        requires
            self.wf(),
            self.body().len() >= 2,
        ensures
            r.loong.body@ == mirrored_all(self.body(), self.config().dimension_y),
            r.food@ == mirrored_all(self.food(), self.config().dimension_y),
            r.head_direction == self.current(),
            Some(r.tail_direction) == self.body().last().offset_from(
                self.body()[self.body().len() - 2],
            ),
    {
        let dim_y = self.cfg.dimension_y;
        let state = self.get_state();
        let LoongCtrlState { loong, food, head_direction, tail_direction } = state;
        let mut body = loong.body;
        let mut food = food;
        proof {
            lemma_chained_is_aligned(self.body(), self.cfg);
        }
        mirror_points(&mut body, dim_y);
        mirror_points(&mut food, dim_y);
        LoongCtrlState { loong: Loong { body }, food, head_direction, tail_direction }
    }
    /// The grid with the creature and the food drawn in.
    pub fn get_matrix(&self) -> (m: Matrix)
        requires
            self.wf(),
        ensures
            m.wf(),
            m.spec_width() == self.config().dimension_x,
            m.spec_height() == self.config().dimension_y,
            forall|x: int, y: int|
                0 <= x < self.config().dimension_x && 0 <= y < self.config().dimension_y
                    ==> #[trigger] m.at(x, y) == occupancy(
                    self.body(),
                    self.food(),
                    Point(x as u16, y as u16),
                ),
    {
        self.board.get_matrix()
    }

    /// Takes up a game at the given position, heading in `heading`. `None`
    /// if the position is not well formed.
    pub fn resume(board: Board, heading: Direction) -> (r: Option<Self>)
        ensures
            r.is_some() == board.wf(),
            r matches Some(c) ==> c.wf() && c.config() == board.cfg && c.body()
                == board.loong.body@ && c.food() == board.food.positions@ && c.current()
                == heading && c.pending() == heading && c.intact() == board.intact(),
    {
        if !board.is_well_formed() {
            return None;
        }
        let cfg = board.cfg;
        Some(LoongCtrl { next_direction: heading, current_direction: heading, board, cfg })
    }
}

} // verus!
