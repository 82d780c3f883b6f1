//! The rules of one tick, as relations between the position before and
//! after it, and the facts about them that the board's proofs rest on.

use vstd::prelude::*;
use crate::err::{LoongCtrlErr, LoongCtrlResult};
use crate::geometry::{Direction, Point};
use crate::options::InnerCfg;

verus! {

/// `i` is the first position at which `p` occurs in `s`.
pub open spec fn first_at(s: Seq<Point>, p: Point, i: int) -> bool {
    &&& 0 <= i < s.len()
    &&& s[i] == p
    &&& forall|j: int| 0 <= j < i ==> s[j] != p
}

/// `s` with the first occurrence of `p` taken out, if there is one.
pub open spec fn without(s: Seq<Point>, p: Point) -> Seq<Point> {
    if s.contains(p) {
        s.remove(choose|i: int| first_at(s, p, i))
    } else {
        s
    }
}

/// The cell one step from `head` in direction `d`, before any check against
/// the grid.
pub open spec fn ahead(head: Point, d: Direction) -> (int, int) {
    match d {
        Direction::Right => (head.0 + 1, head.1 as int),
        Direction::Top => (head.0 as int, head.1 + 1),
        Direction::Bottom => (head.0 as int, head.1 - 1),
        Direction::Left => (head.0 - 1, head.1 as int),
    }
}

/// The candidate cell lies outside the grid.
pub open spec fn off_grid(c: (int, int), cfg: InnerCfg) -> bool {
    c.0 < 0 || c.1 < 0 || c.0 > cfg.dimension_x - 1 || c.1 > cfg.dimension_y - 1
}

/// The candidate cell brought back onto the grid: a cell that left over one
/// edge enters at the opposite edge, any other cell stays.
pub open spec fn wrapped(c: (int, int), cfg: InnerCfg) -> Point {
    if c.0 < 0 {
        Point((cfg.dimension_x - 1) as u16, c.1 as u16)
    } else if c.1 < 0 {
        Point(c.0 as u16, (cfg.dimension_y - 1) as u16)
    } else if c.0 > cfg.dimension_x - 1 {
        Point(0, c.1 as u16)
    } else if c.1 > cfg.dimension_y - 1 {
        Point(c.0 as u16, 0)
    } else {
        Point(c.0 as u16, c.1 as u16)
    }
}

/// The two cells sit at opposite edges of one row or of one column.
pub open spec fn across_seam(p: Point, q: Point, cfg: InnerCfg) -> bool {
    ||| (p.1 == q.1 && ((p.0 == 0 && q.0 == cfg.dimension_x - 1) || (q.0 == 0 && p.0
        == cfg.dimension_x - 1)))
    ||| (p.0 == q.0 && ((p.1 == 0 && q.1 == cfg.dimension_y - 1) || (q.1 == 0 && p.1
        == cfg.dimension_y - 1)))
}

/// Two neighbouring segments: at distance one or, where walls can be walked
/// through, on the two sides of a seam.
pub open spec fn linked(p: Point, q: Point, cfg: InnerCfg) -> bool {
    p.near(q) || (cfg.walking_through_the_walls && across_seam(p, q, cfg))
}

/// Every cell of `s` lies on the grid.
pub open spec fn all_on_grid(s: Seq<Point>, cfg: InnerCfg) -> bool {
    forall|i: int| 0 <= i < s.len() ==> cfg.holds(#[trigger] s[i])
}

/// Every two consecutive cells of `s` are linked.
pub open spec fn chained(s: Seq<Point>, cfg: InnerCfg) -> bool {
    forall|i: int| 0 <= i < s.len() - 1 ==> linked(#[trigger] s[i], s[i + 1], cfg)
}

/// No cell of `food` is a cell of `body`.
pub open spec fn apart(body: Seq<Point>, food: Seq<Point>) -> bool {
    forall|i: int| 0 <= i < food.len() ==> !body.contains(#[trigger] food[i])
}

/// `food2` is `food`, or `food` with one more cell that lies on the grid
/// and was free.
pub open spec fn replenished(
    cfg: InnerCfg,
    body: Seq<Point>,
    food: Seq<Point>,
    food2: Seq<Point>,
) -> bool {
    ||| food2 == food
    ||| exists|p: Point|
        {
            &&& food2 == food.push(p)
            &&& cfg.holds(p)
            &&& !body.contains(p)
            &&& !food.contains(p)
        }
}

/// What moving the body one step does: the result `r` and the body `body2`
/// left behind, for a body `body` before the step.
pub open spec fn body_step(
    cfg: InnerCfg,
    body: Seq<Point>,
    d: Direction,
    r: LoongCtrlResult<Point>,
    body2: Seq<Point>,
) -> bool {
    if body.len() == 0 {
        r == Err::<Point, LoongCtrlErr>(LoongCtrlErr::LoongIsZero) && body2 == body
    } else {
        let c = ahead(body[0], d);
        if off_grid(c, cfg) && !cfg.walking_through_the_walls {
            r == Err::<Point, LoongCtrlErr>(LoongCtrlErr::LoongHitTheWall) && body2 == body
        } else {
            let h = wrapped(c, cfg);
            &&& body2 == seq![h] + body.drop_last()
            &&& if body.drop_last().contains(h) {
                r == Err::<Point, LoongCtrlErr>(LoongCtrlErr::LoongAteItself)
            } else {
                r == Ok::<Point, LoongCtrlErr>(body.last())
            }
        }
    }
}

/// What one tick does to the board: the result `r`, and the body and food
/// left behind.
pub open spec fn board_step(
    cfg: InnerCfg,
    body: Seq<Point>,
    food: Seq<Point>,
    d: Direction,
    r: LoongCtrlResult<bool>,
    body2: Seq<Point>,
    food2: Seq<Point>,
) -> bool {
    if body.len() == 0 {
        r == Err::<bool, LoongCtrlErr>(LoongCtrlErr::LoongIsZero) && body2 == body && food2
            == food
    } else {
        let c = ahead(body[0], d);
        if off_grid(c, cfg) && !cfg.walking_through_the_walls {
            r == Err::<bool, LoongCtrlErr>(LoongCtrlErr::LoongHitTheWall) && body2 == body
                && food2 == food
        } else {
            let h = wrapped(c, cfg);
            if body.drop_last().contains(h) {
                &&& r == Err::<bool, LoongCtrlErr>(LoongCtrlErr::LoongAteItself)
                &&& body2 == seq![h] + body.drop_last()
                &&& food2 == food
            } else if food.contains(h) {
                &&& r == Ok::<bool, LoongCtrlErr>(true)
                &&& body2 == seq![h] + body
                &&& if cfg.auto_gen_food {
                    replenished(cfg, body2, without(food, h), food2)
                } else {
                    food2 == without(food, h)
                }
            } else {
                &&& r == Ok::<bool, LoongCtrlErr>(false)
                &&& body2 == seq![h] + body.drop_last()
                &&& food2 == food
            }
        }
    }
}

/// Taking out the first occurrence keeps only cells that were there, and
/// from a sequence without repeats it takes the cell out altogether.
pub proof fn lemma_without(s: Seq<Point>, p: Point)
    ensures
        forall|q: Point| without(s, p).contains(q) ==> s.contains(q),
        s.no_duplicates() ==> without(s, p).no_duplicates() && !without(s, p).contains(p),
        s.contains(p) ==> without(s, p).len() == s.len() - 1,
        !s.contains(p) ==> without(s, p) == s,
{
    if s.contains(p) {
        let k = choose|k: int| 0 <= k < s.len() && s[k] == p;
        lemma_first_exists(s, p, k);
        let c = choose|i: int| first_at(s, p, i);
        let r = s.remove(c);
        assert(without(s, p) == r);
        assert forall|q: Point| r.contains(q) implies s.contains(q) by {
            let j = choose|j: int| 0 <= j < r.len() && r[j] == q;
            if j < c {
                assert(s[j] == q);
            } else {
                assert(s[j + 1] == q);
            }
        }
        if s.no_duplicates() {
            assert forall|i: int, j: int| 0 <= i < r.len() && 0 <= j < r.len() && i != j implies r[i]
                != r[j] by {
                let si = if i < c { i } else { i + 1 };
                let sj = if j < c { j } else { j + 1 };
                assert(r[i] == s[si] && r[j] == s[sj]);
            }
            if r.contains(p) {
                let j = choose|j: int| 0 <= j < r.len() && r[j] == p;
                let sj = if j < c { j } else { j + 1 };
                assert(s[sj] == p && s[c] == p && sj != c);
            }
        }
    }
}

/// A cell that occurs somewhere has a first occurrence.
pub proof fn lemma_first_exists(s: Seq<Point>, p: Point, k: int)
    requires
        0 <= k < s.len(),
        s[k] == p,
    ensures
        exists|i: int| first_at(s, p, i),
    decreases k,
{
    if exists|j: int| 0 <= j < k && s[j] == p {
        let j = choose|j: int| 0 <= j < k && s[j] == p;
        lemma_first_exists(s, p, j);
    } else {
        assert(first_at(s, p, k));
    }
}

/// A body that takes a linked head in front stays on the grid and chained,
/// whether or not it gives up its tail.
pub proof fn lemma_advance_keeps_chain(body: Seq<Point>, h: Point, cfg: InnerCfg)
    requires
        body.len() > 0,
        all_on_grid(body, cfg),
        chained(body, cfg),
        cfg.holds(h),
        linked(h, body[0], cfg),
    ensures
        all_on_grid(seq![h] + body, cfg),
        chained(seq![h] + body, cfg),
        all_on_grid(seq![h] + body.drop_last(), cfg),
        chained(seq![h] + body.drop_last(), cfg),
{
    let grown = seq![h] + body;
    let moved = seq![h] + body.drop_last();
    assert forall|i: int| 0 <= i < grown.len() implies cfg.holds(#[trigger] grown[i]) by {
        if i > 0 {
            assert(grown[i] == body[i - 1]);
        }
    }
    assert forall|i: int| 0 <= i < moved.len() implies cfg.holds(#[trigger] moved[i]) by {
        if i > 0 {
            assert(moved[i] == body[i - 1]);
        }
    }
    assert forall|i: int| 0 <= i < grown.len() - 1 implies linked(
        #[trigger] grown[i],
        grown[i + 1],
        cfg,
    ) by {
        if i > 0 {
            assert(grown[i] == body[i - 1] && grown[i + 1] == body[i - 1 + 1]);
        } else {
            assert(grown[1] == body[0]);
        }
    }
    assert forall|i: int| 0 <= i < moved.len() - 1 implies linked(
        #[trigger] moved[i],
        moved[i + 1],
        cfg,
    ) by {
        if i > 0 {
            assert(moved[i] == body[i - 1] && moved[i + 1] == body[i - 1 + 1]);
        } else {
            assert(moved[1] == body[0]);
        }
    }
}

/// A body without repeats that takes in front a head it does not hold
/// has no repeats afterwards.
pub proof fn lemma_advance_keeps_distinct(body: Seq<Point>, h: Point)
    requires
        body.len() > 0,
        body.no_duplicates(),
        !body.drop_last().contains(h),
    ensures
        (seq![h] + body.drop_last()).no_duplicates(),
        !body.contains(h) ==> (seq![h] + body).no_duplicates(),
        forall|q: Point| (seq![h] + body.drop_last()).contains(q) ==> q == h || body.contains(q),
        forall|q: Point| (seq![h] + body).contains(q) ==> q == h || body.contains(q),
{
    let grown = seq![h] + body;
    let moved = seq![h] + body.drop_last();
    let front = body.drop_last();
    assert forall|i: int, j: int| 0 <= i < moved.len() && 0 <= j < moved.len() && i != j implies moved[i]
        != moved[j] by {
        if i > 0 {
            assert(moved[i] == front[i - 1] && front[i - 1] == body[i - 1]);
        }
        if j > 0 {
            assert(moved[j] == front[j - 1] && front[j - 1] == body[j - 1]);
        }
    }
    if !body.contains(h) {
        assert forall|i: int, j: int| 0 <= i < grown.len() && 0 <= j < grown.len() && i != j implies grown[i]
            != grown[j] by {
            if i > 0 {
                assert(grown[i] == body[i - 1]);
            }
            if j > 0 {
                assert(grown[j] == body[j - 1]);
            }
        }
    }
    assert forall|q: Point| moved.contains(q) implies q == h || body.contains(q) by {
        let j = choose|j: int| 0 <= j < moved.len() && moved[j] == q;
        if j > 0 {
            assert(moved[j] == body[j - 1]);
        }
    }
    assert forall|q: Point| grown.contains(q) implies q == h || body.contains(q) by {
        let j = choose|j: int| 0 <= j < grown.len() && grown[j] == q;
        if j > 0 {
            assert(grown[j] == body[j - 1]);
        }
    }
}

/// The cell lies on the grid and is taken neither by the creature nor by
/// food.
pub open spec fn vacant(cfg: InnerCfg, body: Seq<Point>, food: Seq<Point>, p: Point) -> bool {
    cfg.holds(p) && !body.contains(p) && !food.contains(p)
}

/// `i` is the position of the first vacant cell among `draws`.
pub open spec fn vacant_at(
    cfg: InnerCfg,
    body: Seq<Point>,
    food: Seq<Point>,
    draws: Seq<Point>,
    i: int,
) -> bool {
    &&& 0 <= i < draws.len()
    &&& vacant(cfg, body, food, draws[i])
    &&& forall|j: int| 0 <= j < i ==> !vacant(cfg, body, food, #[trigger] draws[j])
}

/// The first of the drawn cells that is vacant, if any is.
pub open spec fn first_vacant(
    cfg: InnerCfg,
    body: Seq<Point>,
    food: Seq<Point>,
    draws: Seq<Point>,
) -> Option<Point> {
    if exists|i: int| vacant_at(cfg, body, food, draws, i) {
        Some(draws[choose|i: int| vacant_at(cfg, body, food, draws, i)])
    } else {
        None
    }
}

/// The food after a placement that was handed `draws`: the first vacant
/// draw is added at the end; without one the food stays as it is.
pub open spec fn food_after_spawn(
    cfg: InnerCfg,
    body: Seq<Point>,
    food: Seq<Point>,
    draws: Seq<Point>,
) -> Seq<Point> {
    match first_vacant(cfg, body, food, draws) {
        Some(p) => food.push(p),
        None => food,
    }
}

/// The configuration with replenishing of food switched off.
pub open spec fn without_replenishing(cfg: InnerCfg) -> InnerCfg {
    InnerCfg { auto_gen_food: false, ..cfg }
}

/// What one tick does to the board when the cells drawn for the placement
/// of new food are `draws`: as `board_step`, with the food after a meal
/// fixed by the draws.
pub open spec fn board_step_from(
    cfg: InnerCfg,
    body: Seq<Point>,
    food: Seq<Point>,
    d: Direction,
    draws: Seq<Point>,
    r: LoongCtrlResult<bool>,
    body2: Seq<Point>,
    food2: Seq<Point>,
) -> bool {
    if cfg.auto_gen_food && r == Ok::<bool, LoongCtrlErr>(true) {
        let rest = without(food, wrapped(ahead(body[0], d), cfg));
        &&& board_step(without_replenishing(cfg), body, food, d, r, body2, rest)
        &&& food2 == food_after_spawn(cfg, body2, rest, draws)
    } else {
        board_step(without_replenishing(cfg), body, food, d, r, body2, food2)
    }
}

/// The first vacant draw is one of the draws and is vacant, and there is
/// one whenever any draw is vacant.
pub proof fn lemma_first_vacant(
    cfg: InnerCfg,
    body: Seq<Point>,
    food: Seq<Point>,
    draws: Seq<Point>,
)
    ensures
        first_vacant(cfg, body, food, draws) matches Some(p) ==> vacant(cfg, body, food, p)
            && draws.contains(p),
        first_vacant(cfg, body, food, draws).is_none() ==> forall|i: int|
            0 <= i < draws.len() ==> !vacant(cfg, body, food, #[trigger] draws[i]),
{
    if exists|i: int| vacant_at(cfg, body, food, draws, i) {
        let c = choose|i: int| vacant_at(cfg, body, food, draws, i);
        assert(draws[c] == first_vacant(cfg, body, food, draws).unwrap());
    } else {
        assert forall|i: int| 0 <= i < draws.len() implies !vacant(
            cfg,
            body,
            food,
            #[trigger] draws[i],
        ) by {
            if vacant(cfg, body, food, draws[i]) {
                lemma_vacant_has_first(cfg, body, food, draws, i);
            }
        }
    }
}

/// Where some draw is vacant, there is a first one.
pub proof fn lemma_vacant_has_first(
    cfg: InnerCfg,
    body: Seq<Point>,
    food: Seq<Point>,
    draws: Seq<Point>,
    k: int,
)
    requires
        0 <= k < draws.len(),
        vacant(cfg, body, food, draws[k]),
    ensures
        exists|i: int| vacant_at(cfg, body, food, draws, i),
    decreases k,
{
    if exists|j: int| 0 <= j < k && vacant(cfg, body, food, #[trigger] draws[j]) {
        let j = choose|j: int| 0 <= j < k && vacant(cfg, body, food, #[trigger] draws[j]);
        lemma_vacant_has_first(cfg, body, food, draws, j);
    } else {
        assert(vacant_at(cfg, body, food, draws, k));
    }
}

/// A placement adds at most one cell, and only one that lies on the grid
/// and was free.
pub proof fn lemma_spawn_replenishes(
    cfg: InnerCfg,
    body: Seq<Point>,
    food: Seq<Point>,
    draws: Seq<Point>,
)
    ensures
        replenished(cfg, body, food, food_after_spawn(cfg, body, food, draws)),
{
    lemma_first_vacant(cfg, body, food, draws);
    match first_vacant(cfg, body, food, draws) {
        Some(p) => {
            let food2 = food.push(p);
            assert(food2 == food.push(p) && cfg.holds(p) && !body.contains(p) && !food.contains(
                p,
            ));
        },
        None => {},
    }
}

} // verus!
