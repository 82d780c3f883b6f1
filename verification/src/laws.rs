//! What every tick keeps true of the position, stated over the step
//! relation that the board and the controller promise.

use vstd::prelude::*;
use crate::board::Board;
use crate::err::LoongCtrlErr;
use crate::rules::{
    across_seam, ahead, all_on_grid, apart, board_step, board_step_from, chained,
    food_after_spawn, lemma_advance_keeps_chain, lemma_advance_keeps_distinct,
    lemma_first_vacant, lemma_spawn_replenishes, lemma_without, linked, off_grid, vacant,
    without, wrapped,
};
use crate::err::LoongCtrlResult;
use crate::geometry::{Direction, Point};
use crate::options::InnerCfg;

verus! {

/// Every two consecutive cells are at distance one.
pub open spec fn all_near(s: Seq<Point>) -> bool {
    forall|i: int| 0 <= i < s.len() - 1 ==> (#[trigger] s[i]).near(s[i + 1])
}

/// The body with which a game starts lies on the grid in one straight run:
/// neighbours are at distance one and no cell repeats.
pub proof fn initial_body_is_sound(cfg: InnerCfg)
    requires
        !Board::oversized(cfg),
    ensures
        all_on_grid(Board::initial_body(cfg), cfg),
        all_near(Board::initial_body(cfg)),
        chained(Board::initial_body(cfg), cfg),
        Board::initial_body(cfg).no_duplicates(),
{
    Board::lemma_initial_body(cfg);
    let b = Board::initial_body(cfg);
    assert forall|i: int| 0 <= i < b.len() - 1 implies (#[trigger] b[i]).near(b[i + 1]) by {}
}

/// A tick keeps the body on the grid and chained. The new head is at
/// distance one from the old head, except where the step left the grid and
/// came back in over the seam. As long as no step crosses a seam, all
/// neighbours stay at distance one; where walls are solid none ever does.
pub proof fn tick_keeps_body_chained(
    cfg: InnerCfg,
    body: Seq<Point>,
    food: Seq<Point>,
    d: Direction,
    r: LoongCtrlResult<bool>,
    body2: Seq<Point>,
    food2: Seq<Point>,
)
    requires
        all_on_grid(body, cfg),
        chained(body, cfg),
        board_step(cfg, body, food, d, r, body2, food2),
    ensures
        all_on_grid(body2, cfg),
        chained(body2, cfg),
        body.len() > 0 && !off_grid(ahead(body[0], d), cfg) ==> body2.len() > 0
            && body2[0].near(body[0]),
        body.len() > 0 && off_grid(ahead(body[0], d), cfg) && cfg.walking_through_the_walls
            ==> body2.len() > 0 && across_seam(body2[0], body[0], cfg),
        all_near(body) && body.len() > 0 && (!off_grid(ahead(body[0], d), cfg)
            || !cfg.walking_through_the_walls) ==> all_near(body2),
        !cfg.walking_through_the_walls ==> all_near(body) && all_near(body2),
{
    if !cfg.walking_through_the_walls {
        assert forall|i: int| 0 <= i < body.len() - 1 implies (#[trigger] body[i]).near(
            body[i + 1],
        ) by {
            assert(linked(body[i], body[i + 1], cfg));
        }
    }
    if body.len() > 0 {
        assert(cfg.holds(body[0]));
        let c = ahead(body[0], d);
        if !(off_grid(c, cfg) && !cfg.walking_through_the_walls) {
            let h = wrapped(c, cfg);
            lemma_advance_keeps_chain(body, h, cfg);
            assert(body2[0] == h);
            if all_near(body) && !off_grid(c, cfg) {
                assert forall|i: int| 0 <= i < body2.len() - 1 implies (#[trigger] body2[i]).near(
                    body2[i + 1],
                ) by {
                    if i > 0 {
                        assert(body2[i] == body[i - 1] && body2[i + 1] == body[i - 1 + 1]);
                    } else {
                        assert(body2[1] == body[0]);
                    }
                }
            }
        }
    }
}

/// A tick that succeeds on a position in which no cell is taken twice
/// leaves such a position: no two segments share a cell, no two food items
/// do, and no food item lies under the creature.
pub proof fn tick_keeps_cells_distinct(
    cfg: InnerCfg,
    body: Seq<Point>,
    food: Seq<Point>,
    d: Direction,
    r: LoongCtrlResult<bool>,
    body2: Seq<Point>,
    food2: Seq<Point>,
)
    requires
        body.no_duplicates(),
        food.no_duplicates(),
        apart(body, food),
        board_step(cfg, body, food, d, r, body2, food2),
        r.is_ok(),
    ensures
        body2.no_duplicates(),
        food2.no_duplicates(),
        apart(body2, food2),
{
    let h = wrapped(ahead(body[0], d), cfg);
    lemma_advance_keeps_distinct(body, h);
    lemma_without(food, h);
    if food.contains(h) {
        let rest = without(food, h);
        let k = choose|k: int| 0 <= k < food.len() && food[k] == h;
        assert(!body.contains(food[k]));
        assert forall|i: int| 0 <= i < rest.len() implies !body2.contains(#[trigger] rest[i]) by {
            assert(rest.contains(rest[i]));
            assert(food.contains(rest[i]));
            let j = choose|j: int| 0 <= j < food.len() && food[j] == rest[i];
            assert(!body.contains(food[j]));
        }
        if cfg.auto_gen_food {
            Board::lemma_replenished(cfg, body2, rest, food2);
        }
    } else {
        assert forall|i: int| 0 <= i < food2.len() implies !body2.contains(#[trigger] food2[i]) by {
            assert(!body.contains(food[i]));
            assert(food.contains(food[i]));
        }
    }
}

/// A tick changes the creature's length only by eating: the body grows by
/// one segment when food was eaten and keeps its length otherwise, and the
/// food that was eaten is the one under the new head.
pub proof fn tick_changes_length_by_eating(
    cfg: InnerCfg,
    body: Seq<Point>,
    food: Seq<Point>,
    d: Direction,
    r: LoongCtrlResult<bool>,
    body2: Seq<Point>,
    food2: Seq<Point>,
)
    requires
        board_step(cfg, body, food, d, r, body2, food2),
    ensures
        r == Ok::<bool, crate::err::LoongCtrlErr>(true) ==> body2.len() == body.len() + 1
            && food.contains(body2[0]),
        r != Ok::<bool, crate::err::LoongCtrlErr>(true) ==> body2.len() == body.len(),
{
}

/// A placement that was handed at least one vacant cell adds exactly one
/// food item, and that item is vacant; one that was handed none adds
/// nothing.
pub proof fn spawn_adds_one_vacant_cell(
    cfg: InnerCfg,
    body: Seq<Point>,
    food: Seq<Point>,
    draws: Seq<Point>,
)
    ensures
        (exists|k: int| 0 <= k < draws.len() && vacant(cfg, body, food, #[trigger] draws[k])) ==> {
            &&& food_after_spawn(cfg, body, food, draws).len() == food.len() + 1
            &&& food_after_spawn(cfg, body, food, draws).drop_last() == food
            &&& vacant(cfg, body, food, food_after_spawn(cfg, body, food, draws).last())
        },
        (forall|k: int| 0 <= k < draws.len() ==> !vacant(cfg, body, food, #[trigger] draws[k]))
            ==> food_after_spawn(cfg, body, food, draws) == food,
{
    lemma_first_vacant(cfg, body, food, draws);
    let after = food_after_spawn(cfg, body, food, draws);
    if exists|k: int| 0 <= k < draws.len() && vacant(cfg, body, food, #[trigger] draws[k]) {
        assert(after.drop_last() =~= food);
    }
    if forall|k: int| 0 <= k < draws.len() ==> !vacant(cfg, body, food, #[trigger] draws[k]) {
        if after != food {
            let p = crate::rules::first_vacant(cfg, body, food, draws).unwrap();
            assert(draws.contains(p));
        }
    }
}

/// A tick whose placement of new food was handed `draws` is a tick: what
/// holds of every tick holds of it.
pub proof fn tick_from_draws_is_a_tick(
    cfg: InnerCfg,
    body: Seq<Point>,
    food: Seq<Point>,
    d: Direction,
    draws: Seq<Point>,
    r: LoongCtrlResult<bool>,
    body2: Seq<Point>,
    food2: Seq<Point>,
)
    requires
        board_step_from(cfg, body, food, d, draws, r, body2, food2),
    ensures
        board_step(cfg, body, food, d, r, body2, food2),
{
    if cfg.auto_gen_food && r == Ok::<bool, LoongCtrlErr>(true) {
        let rest = without(food, wrapped(ahead(body[0], d), cfg));
        lemma_spawn_replenishes(cfg, body2, rest, draws);
    }
}

} // verus!
