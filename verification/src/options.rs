//! Game configuration: the builder callers fill in, and the immutable
//! record the board and the controller read.

use vstd::prelude::*;

verus! {

/// Builder for a game's configuration.
#[derive(Copy, Clone, Debug)]
pub struct Options {
    pub dimension_x: u16,
    pub dimension_y: u16,
    pub initial_loong_size: u16,
    pub walking_through_the_walls: bool,
    pub auto_gen_food: bool,
    pub fail_on_revert: bool,
}

impl Default for Options {
    /// A 20 by 20 grid, a creature of three segments, solid walls, food
    /// that replenishes itself, and reversals that are silently dropped.
    fn default() -> (r: Self)
        ensures
            r.dimension_x == 20,
            r.dimension_y == 20,
            r.initial_loong_size == 3,
            !r.walking_through_the_walls,
            r.auto_gen_food,
            !r.fail_on_revert,
    {
        Options {
            dimension_x: 20,
            dimension_y: 20,
            initial_loong_size: 3,
            walking_through_the_walls: false,
            auto_gen_food: true,
            fail_on_revert: false,
        }
    }
}

impl Options {
    /// Sets the grid's width.
    pub fn dimension_x(self, value: u16) -> (r: Self)
        ensures
            r == (Options { dimension_x: value, ..self }),
    {
        Options { dimension_x: value, ..self }
    }

    /// Sets the grid's height.
    pub fn dimension_y(self, value: u16) -> (r: Self)
        ensures
            r == (Options { dimension_y: value, ..self }),
    {
        Options { dimension_y: value, ..self }
    }

    /// Sets the number of segments the creature starts with.
    pub fn initial_loong_size(self, value: u16) -> (r: Self)
        ensures
            r == (Options { initial_loong_size: value, ..self }),
    {
        Options { initial_loong_size: value, ..self }
    }

    /// Sets whether a step over an edge comes back in at the opposite edge.
    pub fn walking_through_the_walls(self, value: bool) -> (r: Self)
        ensures
            r == (Options { walking_through_the_walls: value, ..self }),
    {
        Options { walking_through_the_walls: value, ..self }
    }

    /// Sets whether new food is placed at the start and after each meal.
    pub fn auto_gen_food(self, value: bool) -> (r: Self)
        ensures
            r == (Options { auto_gen_food: value, ..self }),
    {
        Options { auto_gen_food: value, ..self }
    }

    /// Sets whether asking for a reversal is an error.
    pub fn fail_on_revert(self, value: bool) -> (r: Self)
        ensures
            r == (Options { fail_on_revert: value, ..self }),
    {
        Options { fail_on_revert: value, ..self }
    }
}

/// The configuration a running game reads; it never changes after
/// construction.
#[derive(Copy, Clone, Debug)]
pub struct InnerCfg {
    pub dimension_x: u16,
    pub dimension_y: u16,
    pub initial_loong_size: u16,
    pub walking_through_the_walls: bool,
    pub auto_gen_food: bool,
    pub fail_on_revert: bool,
}

impl InnerCfg {
    /// The configuration that holds exactly what the options hold.
    pub open spec fn of(opts: Options) -> InnerCfg {
        InnerCfg {
            dimension_x: opts.dimension_x,
            dimension_y: opts.dimension_y,
            initial_loong_size: opts.initial_loong_size,
            walking_through_the_walls: opts.walking_through_the_walls,
            auto_gen_food: opts.auto_gen_food,
            fail_on_revert: opts.fail_on_revert,
        }
    }

    /// Takes over what the options hold.
    pub fn from_options(opts: &Options) -> (r: Self)
        ensures
            r == InnerCfg::of(*opts),
    {
        InnerCfg {
            dimension_x: opts.dimension_x,
            dimension_y: opts.dimension_y,
            initial_loong_size: opts.initial_loong_size,
            walking_through_the_walls: opts.walking_through_the_walls,
            auto_gen_food: opts.auto_gen_food,
            fail_on_revert: opts.fail_on_revert,
        }
    }

    /// The cell lies on the grid.
    pub open spec fn holds(self, p: crate::geometry::Point) -> bool {
        p.0 < self.dimension_x && p.1 < self.dimension_y
    }
}

} // verus!
