//! The board: the creature's body, the food, and the rules by which one
//! tick changes them.

use vstd::prelude::*;
use crate::err::{LoongCtrlErr, LoongCtrlResult};
use crate::geometry::{Direction, Point};
use crate::matrix::{Cell, Matrix};
use crate::options::InnerCfg;
use crate::random::{draw_below, thread_generator};
use crate::rules::{
    ahead, all_on_grid, apart, board_step, board_step_from, body_step, chained, first_at,
    first_vacant, food_after_spawn, lemma_advance_keeps_chain, lemma_advance_keeps_distinct,
    lemma_first_vacant, lemma_spawn_replenishes, lemma_without, linked, off_grid, replenished,
    vacant, vacant_at, without, without_replenishing, wrapped,
};

verus! {

/// How many random cells a food placement tries before it gives up.
pub const SPAWN_ATTEMPTS: u32 = 10000;

/// What the cell `q` holds on a board with the given body and food; food
/// is drawn over the creature.
pub open spec fn occupancy(body: Seq<Point>, food: Seq<Point>, q: Point) -> Cell {
    if food.contains(q) {
        Cell::Food
    } else if body.contains(q) {
        Cell::Loong
    } else {
        Cell::Empty
    }
}

/// Whether two segments may follow one another in a body.
pub fn is_linked(p: &Point, q: &Point, cfg: &InnerCfg) -> (r: bool)
    ensures
        r == linked(*p, *q, *cfg),
{
    if p.is_near_with(q) {
        return true;
    }
    if !cfg.walking_through_the_walls {
        return false;
    }
    let in_row = p.1 == q.1 && cfg.dimension_x > 0 && ((p.0 == 0 && q.0 == cfg.dimension_x - 1)
        || (q.0 == 0 && p.0 == cfg.dimension_x - 1));
    let in_column = p.0 == q.0 && cfg.dimension_y > 0 && ((p.1 == 0 && q.1 == cfg.dimension_y
        - 1) || (q.1 == 0 && p.1 == cfg.dimension_y - 1));
    in_row || in_column
}

/// Whether every cell lies on the grid.
pub fn is_on_grid(cells: &Vec<Point>, cfg: &InnerCfg) -> (r: bool)
    ensures
        r == all_on_grid(cells@, *cfg),
{
    let mut i: usize = 0;
    while i < cells.len()
        invariant
            i <= cells.len(),
            forall|j: int| 0 <= j < i ==> cfg.holds(#[trigger] cells@[j]),
        decreases cells.len() - i,
    {
        if !(cells[i].0 < cfg.dimension_x && cells[i].1 < cfg.dimension_y) {
            return false;
        }
        i += 1;
    }
    true
}

/// Whether every two consecutive cells are linked.
pub fn is_chained(cells: &Vec<Point>, cfg: &InnerCfg) -> (r: bool)
    ensures
        r == chained(cells@, *cfg),
{
    if cells.len() < 2 {
        return true;
    }
    let mut i: usize = 0;
    while i < cells.len() - 1
        invariant
            cells.len() >= 2,
            i <= cells.len() - 1,
            forall|j: int| 0 <= j < i ==> linked(#[trigger] cells@[j], cells@[j + 1], *cfg),
        decreases cells.len() - i,
    {
        if !is_linked(&cells[i], &cells[i + 1], cfg) {
            return false;
        }
        i += 1;
    }
    true
}

/// Whether `p` is one of `cells`.
pub fn occupies(cells: &Vec<Point>, p: &Point) -> (r: bool)
    ensures
        r == cells@.contains(*p),
{
    let mut i: usize = 0;
    while i < cells.len()
        invariant
            i <= cells.len(),
            forall|j: int| 0 <= j < i ==> cells@[j] != *p,
        decreases cells.len() - i,
    {
        if cells[i] == *p {
            return true;
        }
        i += 1;
    }
    false
}

/// A copy of `cells`.
pub fn copy_points(cells: &Vec<Point>) -> (r: Vec<Point>)
    ensures
        r@ == cells@,
{
    let mut out: Vec<Point> = Vec::new();
    let mut i: usize = 0;
    while i < cells.len()
        invariant
            i <= cells.len(),
            out@ == cells@.take(i as int),
        decreases cells.len() - i,
    {
        out.push(cells[i]);
        assert(out@ =~= cells@.take(i + 1));
        i += 1;
    }
    assert(cells@.take(cells@.len() as int) =~= cells@);
    out
}

/// The food on the board, in the order in which it was placed.
#[derive(Debug, Clone)]
pub struct Food {
    pub positions: Vec<Point>,
}

impl Food {
    /// Whether `p` is taken neither by the creature nor by food.
    pub fn is_free(loong: &Loong, food: &Food, p: &Point) -> (r: bool)
        ensures
            r == (!loong.body@.contains(*p) && !food.positions@.contains(*p)),
    {
        !occupies(&loong.body, p) && !occupies(&food.positions, p)
    }

    /// Draws `count` random cells of the grid; none at all on a grid
    /// without cells.
    pub fn draw_cells(cfg: &InnerCfg, count: u32) -> (r: Vec<Point>)
        ensures
            all_on_grid(r@, *cfg),
            r@.len() == if cfg.dimension_x == 0 || cfg.dimension_y == 0 {
                0
            } else {
                count as int
            },
    {
        let mut cells: Vec<Point> = Vec::new();
        if cfg.dimension_x == 0 || cfg.dimension_y == 0 {
            return cells;
        }
        let mut rng = thread_generator();
        let mut i: u32 = 0;
        while i < count
            invariant
                i <= count,
                cfg.dimension_x > 0,
                cfg.dimension_y > 0,
                cells@.len() == i,
                all_on_grid(cells@, *cfg),
            decreases count - i,
        {
            let x: u16 = draw_below(&mut rng, cfg.dimension_x);
            let y: u16 = draw_below(&mut rng, cfg.dimension_y);
            let ghost before = cells@;
            cells.push(Point(x, y));
            assert forall|j: int| 0 <= j < cells@.len() implies cfg.holds(#[trigger] cells@[j]) by {
                if j < before.len() {
                    assert(cells@[j] == before[j]);
                }
            }
            i += 1;
        }
        cells
    }

    /// The first of the drawn cells that lies on the grid and is taken
    /// neither by the creature nor by food; `None` if there is none.
    pub fn first_free(cfg: &InnerCfg, loong: &Loong, food: &Food, draws: &Vec<Point>) -> (r:
        Option<Point>)
        ensures
            r == first_vacant(*cfg, loong.body@, food.positions@, draws@),
            r matches Some(p) ==> exists|i: int|
                vacant_at(*cfg, loong.body@, food.positions@, draws@, i) && draws@[i] == p,
            r.is_none() ==> forall|i: int|
                0 <= i < draws@.len() ==> !vacant(
                    *cfg,
                    loong.body@,
                    food.positions@,
                    #[trigger] draws@[i],
                ),
    {
        let mut i: usize = 0;
        while i < draws.len()
            invariant
                i <= draws.len(),
                forall|j: int|
                    0 <= j < i ==> !vacant(
                        *cfg,
                        loong.body@,
                        food.positions@,
                        #[trigger] draws@[j],
                    ),
            decreases draws.len() - i,
        {
            let p = draws[i];
            if p.0 < cfg.dimension_x && p.1 < cfg.dimension_y && Food::is_free(loong, food, &p) {
                proof {
                    assert(vacant_at(*cfg, loong.body@, food.positions@, draws@, i as int));
                    let c = choose|c: int|
                        vacant_at(*cfg, loong.body@, food.positions@, draws@, c);
                    assert(c == i);
                }
                return Some(p);
            }
            i += 1;
        }
        proof {
            assert forall|k: int| !vacant_at(*cfg, loong.body@, food.positions@, draws@, k) by {
                if 0 <= k < draws@.len() {
                    assert(!vacant(*cfg, loong.body@, food.positions@, draws@[k]));
                }
            }
        }
        None
    }

    /// Draws `SPAWN_ATTEMPTS` random cells of the grid and hands back the
    /// first that is free; `None` if none of them was, or if the grid has no
    /// cells.
    pub fn generate(cfg: &InnerCfg, loong: &Loong, food: &Food) -> (r: Option<Point>)
        ensures
            r matches Some(p) ==> cfg.holds(p) && !loong.body@.contains(p)
                && !food.positions@.contains(p),
            cfg.dimension_x == 0 || cfg.dimension_y == 0 ==> r.is_none(),
    {
        let draws = Food::draw_cells(cfg, SPAWN_ATTEMPTS);
        proof {
            lemma_first_vacant(*cfg, loong.body@, food.positions@, draws@);
        }
        Food::first_free(cfg, loong, food, &draws)
    }

    /// Takes the first occurrence of `eaten` out of the food.
    pub fn clear_eaten(food: &mut Food, eaten: &Point)
        ensures
            final(food).positions@ == without(old(food).positions@, *eaten),
    {
        let mut i: usize = 0;
        while i < food.positions.len()
            invariant
                i <= food.positions.len(),
                food.positions@ == old(food).positions@,
                forall|j: int| 0 <= j < i ==> food.positions@[j] != *eaten,
            decreases food.positions.len() - i,
        {
            if food.positions[i] == *eaten {
                proof {
                    let s = food.positions@;
                    assert(first_at(s, *eaten, i as int));
                    let c = choose|c: int| first_at(s, *eaten, c);
                    assert(c == i);
                }
                food.positions.remove(i);
                return ;
            }
            i += 1;
        }
    }

    /// No food at all.
    pub fn new() -> (r: Self)
        ensures
            r.positions@ == Seq::<Point>::empty(),
    {
        Food { positions: Vec::new() }
    }
}

/// The creature: its segments from head to tail.
#[derive(Debug, Clone)]
pub struct Loong {
    pub body: Vec<Point>,
}

impl Loong {
    /// A straight body of `size` segments that starts at `center` and runs
    /// to the left.
    pub open spec fn laid_out(center: Point, size: u16) -> Seq<Point> {
        Seq::new(size as nat, |i: int| Point((center.0 - i) as u16, center.1))
    }

    /// A creature of `size` segments with its head at `center`, or
    /// `InitLoongSizeIsBig` if its tail would lie left of column `0`.
    pub fn new(center: Point, size: u16) -> (r: LoongCtrlResult<Self>)
        ensures
            center.0 + 1 < size ==> (r matches Err(e) && e == LoongCtrlErr::InitLoongSizeIsBig),
            center.0 + 1 >= size ==> (r matches Ok(l) && l.body@ == Loong::laid_out(center, size)),
    {
        match Loong::create(center, size) {
            Ok(body) => Ok(Loong { body }),
            Err(e) => Err(e),
        }
    }

    /// The cells of a creature of `size` segments with its head at `center`.
    pub fn create(center: Point, size: u16) -> (r: LoongCtrlResult<Vec<Point>>)
        ensures
            center.0 + 1 < size ==> (r matches Err(e) && e == LoongCtrlErr::InitLoongSizeIsBig),
            center.0 + 1 >= size ==> (r matches Ok(b) && b@ == Loong::laid_out(center, size)),
    {
        let Point(center_x, center_y) = center;
        if size > 0 && center_x < size - 1 {
            return Err(LoongCtrlErr::InitLoongSizeIsBig);
        }
        let mut body: Vec<Point> = Vec::new();
        let mut i: u16 = 0;
        while i < size
            invariant
                i <= size,
                size <= center_x + 1,
                center == Point(center_x, center_y),
                body@ == Loong::laid_out(center, i),
            decreases size - i,
        {
            body.push(Point(center_x - i, center_y));
            assert(body@ =~= Loong::laid_out(center, (i + 1) as u16));
            i += 1;
        }
        Ok(body)
    }

    /// Moves the body one cell in `direction`: the tail leaves, a new head
    /// enters. Returns the cell that the tail gave up.
    pub fn move_loong(cfg: &InnerCfg, loong: &mut Loong, direction: Direction) -> (r:
        LoongCtrlResult<Point>)
        requires
            old(loong).body@.len() > 0 ==> cfg.holds(old(loong).body@[0]),
        ensures
            body_step(*cfg, old(loong).body@, direction, r, final(loong).body@),
    {
        if loong.body.len() == 0 {
            return Err(LoongCtrlErr::LoongIsZero);
        }
        let head = loong.body[0];
        let head_x: i32 = head.0 as i32;
        let head_y: i32 = head.1 as i32;
        let candidate = match direction {
            Direction::Right => (head_x + 1, head_y),
            Direction::Top => (head_x, head_y + 1),
            Direction::Bottom => (head_x, head_y - 1),
            Direction::Left => (head_x - 1, head_y),
        };
        let new_head = match Loong::try_teleport_head_if_need(cfg, candidate) {
            Ok(p) => p,
            Err(e) => {
                return Err(e);
            },
        };
        let last = match loong.body.pop() {
            Some(l) => l,
            None => {
                return Err(LoongCtrlErr::LoongIsZero);
            },
        };
        loong.body.insert(0, new_head);
        assert(loong.body@ =~= seq![new_head] + old(loong).body@.drop_last());
        assert(loong.body@.subrange(1, loong.body@.len() as int) =~= old(loong).body@.drop_last());
        if Loong::is_ate_itself(loong) {
            return Err(LoongCtrlErr::LoongAteItself);
        }
        Ok(last)
    }

    /// Whether the head sits on another segment.
    pub fn is_ate_itself(loong: &Loong) -> (r: bool)
        requires
            loong.body@.len() > 0,
        ensures
            r == loong.body@.subrange(1, loong.body@.len() as int).contains(loong.body@[0]),
    {
        let head = loong.body[0];
        let ghost rest = loong.body@.subrange(1, loong.body@.len() as int);
        let mut i: usize = 1;
        while i < loong.body.len()
            invariant
                1 <= i <= loong.body.len(),
                head == loong.body@[0],
                rest == loong.body@.subrange(1, loong.body@.len() as int),
                forall|j: int| 0 <= j < i - 1 ==> rest[j] != head,
            decreases loong.body.len() - i,
        {
            if loong.body[i] == head {
                assert(rest[i - 1] == head);
                return true;
            }
            i += 1;
        }
        false
    }

    /// The food under the head, if there is any.
    pub fn has_eaten(loong: &Loong, food: &Food) -> (r: Option<Point>)
        requires
            loong.body@.len() > 0,
        ensures
            r == if food.positions@.contains(loong.body@[0]) {
                Some(loong.body@[0])
            } else {
                None
            },
    {
        let first = loong.body[0];
        if occupies(&food.positions, &first) {
            Some(first)
        } else {
            None
        }
    }

    /// Checks the candidate head against the grid. A candidate on the grid
    /// is kept. One that left the grid enters at the opposite edge where
    /// walls can be walked through, and is a wall collision where not.
    pub fn try_teleport_head_if_need(cfg: &InnerCfg, new_head_unnormalized: (i32, i32)) -> (r:
        LoongCtrlResult<Point>)
        requires
            cfg.dimension_x >= 1,
            cfg.dimension_y >= 1,
            -1 <= new_head_unnormalized.0 <= cfg.dimension_x,
            -1 <= new_head_unnormalized.1 <= cfg.dimension_y,
            0 <= new_head_unnormalized.0 < cfg.dimension_x || 0 <= new_head_unnormalized.1
                < cfg.dimension_y,
        ensures
            r == if off_grid(
                (new_head_unnormalized.0 as int, new_head_unnormalized.1 as int),
                *cfg,
            ) && !cfg.walking_through_the_walls {
                Err::<Point, LoongCtrlErr>(LoongCtrlErr::LoongHitTheWall)
            } else {
                Ok::<Point, LoongCtrlErr>(
                    wrapped(
                        (new_head_unnormalized.0 as int, new_head_unnormalized.1 as int),
                        *cfg,
                    ),
                )
            },
            r matches Ok(p) ==> cfg.holds(p),
    {
        let (new_head_x, new_head_y) = new_head_unnormalized;
        let can_teleport = cfg.walking_through_the_walls;
        if new_head_x < 0 {
            if !can_teleport {
                return Err(LoongCtrlErr::LoongHitTheWall);
            }
            return Ok(Point(cfg.dimension_x - 1, new_head_y as u16));
        } else if new_head_y < 0 {
            if !can_teleport {
                return Err(LoongCtrlErr::LoongHitTheWall);
            }
            return Ok(Point(new_head_x as u16, cfg.dimension_y - 1));
        } else if new_head_x > cfg.dimension_x as i32 - 1 {
            if !can_teleport {
                return Err(LoongCtrlErr::LoongHitTheWall);
            }
            return Ok(Point(0, new_head_y as u16));
        } else if new_head_y > cfg.dimension_y as i32 - 1 {
            if !can_teleport {
                return Err(LoongCtrlErr::LoongHitTheWall);
            }
            return Ok(Point(new_head_x as u16, 0));
        }
        Ok(Point(new_head_x as u16, new_head_y as u16))
    }
}

/// The whole position: the configuration, the creature and the food.
pub struct Board {
    pub cfg: InnerCfg,
    pub loong: Loong,
    pub food: Food,
}

impl Board {
    /// The centre cell of a grid of the given size.
    pub open spec fn spec_center_of(dim_x: u16, dim_y: u16) -> Point {
        Point(dim_x / 2, dim_y / 2)
    }

    /// The configuration has no room for its initial creature: the tail would
    /// lie left of column `0`, or the grid has no cells to put a creature on.
    pub open spec fn oversized(cfg: InnerCfg) -> bool {
        ||| cfg.dimension_x / 2 + 1 < cfg.initial_loong_size
        ||| (cfg.initial_loong_size > 0 && (cfg.dimension_x == 0 || cfg.dimension_y == 0))
    }

    /// What a fresh board under `cfg` looks like when the cells drawn for
    /// its first food are `draws`.
    pub open spec fn fresh_from(&self, cfg: InnerCfg, draws: Seq<Point>) -> bool {
        &&& self.cfg == cfg
        &&& self.loong.body@ == Board::initial_body(cfg)
        &&& self.food.positions@ == if cfg.auto_gen_food {
            food_after_spawn(cfg, Board::initial_body(cfg), Seq::<Point>::empty(), draws)
        } else {
            Seq::<Point>::empty()
        }
    }

    /// The body with which a game under `cfg` starts.
    pub open spec fn initial_body(cfg: InnerCfg) -> Seq<Point> {
        Loong::laid_out(
            Board::spec_center_of(cfg.dimension_x, cfg.dimension_y),
            cfg.initial_loong_size,
        )
    }

    /// Body and food lie on the grid, and the body is chained.
    pub open spec fn wf(&self) -> bool {
        &&& all_on_grid(self.loong.body@, self.cfg)
        &&& all_on_grid(self.food.positions@, self.cfg)
        &&& chained(self.loong.body@, self.cfg)
    }

    /// No cell is taken twice: neither by two segments, nor by two food
    /// items, nor by a segment and a food item.
    pub open spec fn intact(&self) -> bool {
        &&& self.loong.body@.no_duplicates()
        &&& self.food.positions@.no_duplicates()
        &&& apart(self.loong.body@, self.food.positions@)
    }

    /// What a fresh board under `cfg` looks like.
    pub open spec fn fresh(&self, cfg: InnerCfg) -> bool {
        &&& self.cfg == cfg
        &&& self.loong.body@ == Board::initial_body(cfg)
        &&& if cfg.auto_gen_food {
            replenished(cfg, self.loong.body@, Seq::<Point>::empty(), self.food.positions@)
        } else {
            self.food.positions@ == Seq::<Point>::empty()
        }
    }

    /// The initial body lies on the grid, is chained and has no repeats.
    pub proof fn lemma_initial_body(cfg: InnerCfg)
        requires
            !Board::oversized(cfg),
        ensures
            all_on_grid(Board::initial_body(cfg), cfg),
            chained(Board::initial_body(cfg), cfg),
            Board::initial_body(cfg).no_duplicates(),
            Board::initial_body(cfg).len() == cfg.initial_loong_size,
    {
        let b = Board::initial_body(cfg);
        assert forall|i: int| 0 <= i < b.len() - 1 implies linked(#[trigger] b[i], b[i + 1], cfg) by {
            assert(b[i].near(b[i + 1]));
        }
    }

    /// A food sequence that grew by at most one free cell keeps the board
    /// well formed, and intact if it was.
    pub proof fn lemma_replenished(
        cfg: InnerCfg,
        body: Seq<Point>,
        food: Seq<Point>,
        food2: Seq<Point>,
    )
        requires
            replenished(cfg, body, food, food2),
        ensures
            all_on_grid(food, cfg) ==> all_on_grid(food2, cfg),
            food.no_duplicates() ==> food2.no_duplicates(),
            apart(body, food) ==> apart(body, food2),
    {
        if food2 != food {
            let p = choose|p: Point|
                {
                    &&& food2 == food.push(p)
                    &&& cfg.holds(p)
                    &&& !body.contains(p)
                    &&& !food.contains(p)
                };
            if all_on_grid(food, cfg) {
                assert forall|i: int| 0 <= i < food2.len() implies cfg.holds(#[trigger] food2[i]) by {
                    if i < food.len() {
                        assert(food2[i] == food[i]);
                    }
                }
            }
            if food.no_duplicates() {
                assert forall|i: int, j: int|
                    0 <= i < food2.len() && 0 <= j < food2.len() && i != j implies food2[i]
                    != food2[j] by {
                    if i < food.len() {
                        assert(food2[i] == food[i]);
                    }
                    if j < food.len() {
                        assert(food2[j] == food[j]);
                    }
                }
            }
            if apart(body, food) {
                assert forall|i: int| 0 <= i < food2.len() implies !body.contains(
                    #[trigger] food2[i],
                ) by {
                    if i < food.len() {
                        assert(food2[i] == food[i]);
                    }
                }
            }
        }
    }

    /// A fresh board under `cfg`, or `InitLoongSizeIsBig` if the creature
    /// does not fit.
    pub fn new(cfg: InnerCfg) -> (r: LoongCtrlResult<Self>)
        ensures
            Board::oversized(cfg) ==> (r matches Err(e) && e == LoongCtrlErr::InitLoongSizeIsBig),
            !Board::oversized(cfg) ==> (r matches Ok(b) && b.fresh(cfg) && b.wf() && b.intact()),
    {
        let draws = if cfg.auto_gen_food {
            Food::draw_cells(&cfg, SPAWN_ATTEMPTS)
        } else {
            Vec::new()
        };
        proof {
            lemma_spawn_replenishes(
                cfg,
                Board::initial_body(cfg),
                Seq::<Point>::empty(),
                draws@,
            );
        }
        Board::new_from(cfg, &draws)
    }

    /// A fresh board under `cfg` whose first food, where food replenishes
    /// itself, is the first vacant cell of `draws`; `InitLoongSizeIsBig` if
    /// the creature does not fit.
    pub fn new_from(cfg: InnerCfg, draws: &Vec<Point>) -> (r: LoongCtrlResult<Self>)
        ensures
            Board::oversized(cfg) ==> (r matches Err(e) && e == LoongCtrlErr::InitLoongSizeIsBig),
            !Board::oversized(cfg) ==> (r matches Ok(b) && b.fresh_from(cfg, draws@) && b.wf()
                && b.intact()),
    {
        let center = Board::center_of(cfg.dimension_x, cfg.dimension_y);
        if cfg.initial_loong_size > 0 && (cfg.dimension_x == 0 || cfg.dimension_y == 0) {
            return Err(LoongCtrlErr::InitLoongSizeIsBig);
        }
        let loong = match Loong::new(center, cfg.initial_loong_size) {
            Ok(l) => l,
            Err(e) => {
                return Err(e);
            },
        };
        let mut board = Board { cfg, loong, food: Food::new() };
        proof {
            Board::lemma_initial_body(cfg);
        }
        if board.cfg.auto_gen_food {
            board.spawn_from(draws);
        }
        Ok(board)
    }

    /// Puts the board back to a fresh one under its own configuration. On
    /// an error nothing changes.
    pub fn restart(&mut self) -> (r: LoongCtrlResult<()>)
        ensures
            final(self).cfg == old(self).cfg,
            Board::oversized(old(self).cfg) ==> (r matches Err(e) && e
                == LoongCtrlErr::InitLoongSizeIsBig) && *final(self) == *old(self),
            !Board::oversized(old(self).cfg) ==> r.is_ok() && final(self).fresh(old(self).cfg)
                && final(self).wf() && final(self).intact(),
    {
        let fresh = match Board::new(self.cfg) {
            Ok(b) => b,
            Err(e) => {
                return Err(e);
            },
        };
        *self = fresh;
        Ok(())
    }

    /// Puts the board back to a fresh one under its own configuration,
    /// with `draws` as the cells drawn for its first food. On an error
    /// nothing changes.
    pub fn restart_from(&mut self, draws: &Vec<Point>) -> (r: LoongCtrlResult<()>)
        ensures
            final(self).cfg == old(self).cfg,
            Board::oversized(old(self).cfg) ==> (r matches Err(e) && e
                == LoongCtrlErr::InitLoongSizeIsBig) && *final(self) == *old(self),
            !Board::oversized(old(self).cfg) ==> r.is_ok() && final(self).fresh_from(
                old(self).cfg,
                draws@,
            ) && final(self).wf() && final(self).intact(),
    {
        let fresh = match Board::new_from(self.cfg, draws) {
            Ok(b) => b,
            Err(e) => {
                return Err(e);
            },
        };
        *self = fresh;
        Ok(())
    }

    /// Advances the position by one tick in `direction`. `Ok(true)` means
    /// that food was eaten and the creature grew by one; where food
    /// replenishes itself, a new item is then placed if a free cell is found.
    pub fn move_loong(&mut self, direction: Direction) -> (r: LoongCtrlResult<bool>)
        requires
            old(self).wf(),
        ensures
            final(self).cfg == old(self).cfg,
            final(self).wf(),
            board_step(
                old(self).cfg,
                old(self).loong.body@,
                old(self).food.positions@,
                direction,
                r,
                final(self).loong.body@,
                final(self).food.positions@,
            ),
            old(self).intact() && r.is_ok() ==> final(self).intact(),
    {
        let r = self.advance(direction);
        if self.cfg.auto_gen_food {
            if let Ok(true) = r {
                self.generate_food();
            }
        }
        r
    }

    /// Advances the position by one tick in `direction`, with `draws` as
    /// the cells drawn for new food: after a meal, where food replenishes
    /// itself, the first vacant cell of `draws` becomes food.
    pub fn move_loong_from(&mut self, direction: Direction, draws: &Vec<Point>) -> (r:
        LoongCtrlResult<bool>)
        requires
            old(self).wf(),
        ensures
            final(self).cfg == old(self).cfg,
            final(self).wf(),
            board_step_from(
                old(self).cfg,
                old(self).loong.body@,
                old(self).food.positions@,
                direction,
                draws@,
                r,
                final(self).loong.body@,
                final(self).food.positions@,
            ),
            old(self).intact() && r.is_ok() ==> final(self).intact(),
    {
        let r = self.advance(direction);
        if self.cfg.auto_gen_food {
            if let Ok(true) = r {
                self.spawn_from(draws);
            }
        }
        r
    }

    /// Advances the position by one tick in `direction` and places no new
    /// food: the creature moves, and eats what lies under its new head.
    pub fn advance(&mut self, direction: Direction) -> (r: LoongCtrlResult<bool>)
        requires
            old(self).wf(),
        ensures
            final(self).cfg == old(self).cfg,
            final(self).wf(),
            board_step(
                without_replenishing(old(self).cfg),
                old(self).loong.body@,
                old(self).food.positions@,
                direction,
                r,
                final(self).loong.body@,
                final(self).food.positions@,
            ),
            old(self).intact() && r.is_ok() ==> final(self).intact(),
    {
        let ghost body = self.loong.body@;
        let ghost food = self.food.positions@;
        let ghost cfg = self.cfg;
        let removed_last = match Loong::move_loong(&self.cfg, &mut self.loong, direction) {
            Ok(l) => l,
            Err(e) => {
                proof {
                    if body.len() > 0 && e == LoongCtrlErr::LoongAteItself {
                        let h = wrapped(ahead(body[0], direction), cfg);
                        lemma_advance_keeps_chain(body, h, cfg);
                    }
                }
                return Err(e);
            },
        };
        let ghost h = wrapped(ahead(body[0], direction), cfg);
        proof {
            lemma_advance_keeps_chain(body, h, cfg);
            if body.no_duplicates() {
                lemma_advance_keeps_distinct(body, h);
            }
            lemma_without(food, h);
        }
        let eaten = Loong::has_eaten(&self.loong, &self.food);
        if let Some(e) = eaten {
            self.loong.body.push(removed_last);
            assert(self.loong.body@ =~= seq![h] + body);
            Food::clear_eaten(&mut self.food, &e);
            proof {
                let rest = self.food.positions@;
                assert(rest == without(food, h));
                assert forall|i: int| 0 <= i < rest.len() implies cfg.holds(#[trigger] rest[i]) by {
                    assert(rest.contains(rest[i]));
                    assert(food.contains(rest[i]));
                }
                if body.no_duplicates() && food.no_duplicates() && apart(body, food) {
                    assert(!body.contains(h)) by {
                        let k = choose|k: int| 0 <= k < food.len() && food[k] == h;
                        assert(!body.contains(food[k]));
                    }
                    assert forall|i: int| 0 <= i < rest.len() implies !self.loong.body@.contains(
                        #[trigger] rest[i],
                    ) by {
                        assert(rest.contains(rest[i]));
                        assert(food.contains(rest[i]));
                        let k = choose|k: int| 0 <= k < food.len() && food[k] == rest[i];
                        assert(!body.contains(food[k]));
                    }
                }
            }
            return Ok(true);
        }
        proof {
            if body.no_duplicates() && food.no_duplicates() && apart(body, food) {
                assert forall|i: int| 0 <= i < food.len() implies !self.loong.body@.contains(
                    #[trigger] food[i],
                ) by {
                    assert(!body.contains(food[i]));
                    assert(food.contains(food[i]));
                }
            }
        }
        Ok(false)
    }

    /// Tries to place one more food item on a free cell.
    pub fn generate_food(&mut self)
        requires
            all_on_grid(old(self).food.positions@, old(self).cfg),
        ensures
            final(self).cfg == old(self).cfg,
            final(self).loong == old(self).loong,
            replenished(
                old(self).cfg,
                old(self).loong.body@,
                old(self).food.positions@,
                final(self).food.positions@,
            ),
            all_on_grid(final(self).food.positions@, old(self).cfg),
            old(self).food.positions@.no_duplicates() ==> final(self).food.positions@.no_duplicates(),
            apart(old(self).loong.body@, old(self).food.positions@) ==> apart(
                final(self).loong.body@,
                final(self).food.positions@,
            ),
    {
        let spawned = Food::generate(&self.cfg, &self.loong, &self.food);
        self.place_food(spawned);
        proof {
            Board::lemma_replenished(
                self.cfg,
                self.loong.body@,
                old(self).food.positions@,
                self.food.positions@,
            );
        }
    }

    /// Places new food on the first vacant cell of `draws`, if there is one.
    pub fn spawn_from(&mut self, draws: &Vec<Point>)
        requires
            all_on_grid(old(self).food.positions@, old(self).cfg),
        ensures
            final(self).cfg == old(self).cfg,
            final(self).loong == old(self).loong,
            final(self).food.positions@ == food_after_spawn(
                old(self).cfg,
                old(self).loong.body@,
                old(self).food.positions@,
                draws@,
            ),
            all_on_grid(final(self).food.positions@, old(self).cfg),
            old(self).food.positions@.no_duplicates() ==> final(self).food.positions@.no_duplicates(),
            apart(old(self).loong.body@, old(self).food.positions@) ==> apart(
                final(self).loong.body@,
                final(self).food.positions@,
            ),
    {
        let spawned = Food::first_free(&self.cfg, &self.loong, &self.food, draws);
        self.place_food(spawned);
        proof {
            lemma_spawn_replenishes(
                self.cfg,
                self.loong.body@,
                old(self).food.positions@,
                draws@,
            );
            Board::lemma_replenished(
                self.cfg,
                self.loong.body@,
                old(self).food.positions@,
                self.food.positions@,
            );
        }
    }

    /// Adds the cell that a placement found to the food; without one the
    /// food stays as it is.
    pub fn place_food(&mut self, spawned: Option<Point>)
        ensures
            final(self).cfg == old(self).cfg,
            final(self).loong == old(self).loong,
            final(self).food.positions@ == match spawned {
                Some(p) => old(self).food.positions@.push(p),
                None => old(self).food.positions@,
            },
    {
        match spawned {
            Some(p) => {
                self.food.positions.push(p);
            },
            None => {},
        }
    }

    /// Whether the board is well formed.
    pub fn is_well_formed(&self) -> (r: bool)
        ensures
            r == self.wf(),
    {
        is_on_grid(&self.loong.body, &self.cfg) && is_on_grid(&self.food.positions, &self.cfg)
            && is_chained(&self.loong.body, &self.cfg)
    }

    /// The grid with the creature and the food drawn in.
    pub fn get_matrix(&self) -> (m: Matrix)
        ensures
            m.wf(),
            m.spec_width() == self.cfg.dimension_x,
            m.spec_height() == self.cfg.dimension_y,
            forall|x: int, y: int|
                0 <= x < self.cfg.dimension_x && 0 <= y < self.cfg.dimension_y ==> #[trigger] m.at(
                    x,
                    y,
                ) == occupancy(self.loong.body@, self.food.positions@, Point(x as u16, y as u16)),
    {
        let mut m = Matrix::new(self.cfg.dimension_x, self.cfg.dimension_y);
        let ghost empty = m;
        m.add_loong(&self.loong.body);
        let ghost drawn = m;
        m.add_food(&self.food);
        proof {
            assert forall|x: int, y: int|
                0 <= x < self.cfg.dimension_x && 0 <= y < self.cfg.dimension_y implies #[trigger] m.at(
                x,
                y,
            ) == occupancy(self.loong.body@, self.food.positions@, Point(x as u16, y as u16)) by {
                assert(empty.at(x, y) == Cell::Empty);
                assert(drawn.at(x, y) == if self.loong.body@.contains(Point(x as u16, y as u16)) {
                    Cell::Loong
                } else {
                    empty.at(x, y)
                });
            }
        }
        m
    }

    /// The centre cell of a grid of the given size.
    pub fn center_of(dim_x: u16, dim_y: u16) -> (r: Point)
        ensures
            r == Board::spec_center_of(dim_x, dim_y),
    {
        let center_x = dim_x / 2;
        let center_y = dim_y / 2;
        Point(center_x, center_y)
    }

    /// A copy of the creature.
    pub fn clone_loong(&self) -> (r: Loong)
        ensures
            r.body@ == self.loong.body@,
    {
        Loong { body: copy_points(&self.loong.body) }
    }

    /// A copy of the food's cells.
    pub fn clone_food(&self) -> (r: Vec<Point>)
        ensures
            r@ == self.food.positions@,
    {
        copy_points(&self.food.positions)
    }
}

} // verus!
