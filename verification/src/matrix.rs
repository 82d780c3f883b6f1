//! A dense picture of the grid: what each cell holds.

use vstd::prelude::*;
use crate::board::Food;
use crate::err::{LoongCtrlErr, LoongCtrlResult};
use crate::geometry::Point;
use crate::text::text_of;

verus! {

/// What one cell of the grid holds.
#[derive(Copy, Clone, Eq, PartialEq, Debug, Structural)]
pub enum Cell {
    Empty,
    Loong,
    Food,
}

impl Cell {
    /// The character a cell is drawn as.
    pub open spec fn glyph(self) -> char {
        match self {
            Cell::Empty => '.',
            Cell::Loong => '#',
            Cell::Food => '*',
        }
    }

    /// The character the cell is drawn as.
    pub fn to_char(&self) -> (r: char)
        ensures
            r == self.glyph(),
    {
        match self {
            Cell::Empty => '.',
            Cell::Loong => '#',
            Cell::Food => '*',
        }
    }
}

/// One of the first `n` cells of `cells` is `q`.
pub open spec fn among_first(cells: Seq<Point>, n: int, q: Point) -> bool {
    exists|j: int| 0 <= j < n && #[trigger] cells[j] == q
}

/// The grid as rows of cells; row `0` is the bottom row.
pub struct Matrix {
    width: u16,
    height: u16,
    rows: Vec<Vec<Cell>>,
}

impl Matrix {
    /// The number of columns.
    pub closed spec fn spec_width(&self) -> u16 {
        self.width
    }

    /// The number of rows.
    pub closed spec fn spec_height(&self) -> u16 {
        self.height
    }

    /// There are `height` rows of `width` cells each.
    pub closed spec fn wf(&self) -> bool {
        &&& self.rows@.len() == self.height
        &&& forall|y: int| 0 <= y < self.height ==> (#[trigger] self.rows@[y])@.len() == self.width
    }

    /// What the cell in column `x` of row `y` holds.
    pub closed spec fn at(&self, x: int, y: int) -> Cell {
        self.rows@[y]@[x]
    }

    /// Row `y` as text, from column `0` on.
    pub open spec fn row_text(&self, y: int) -> Seq<char> {
        Seq::new(self.spec_width() as nat, |x: int| self.at(x, y).glyph())
    }

    /// The topmost `n` rows as text, each followed by a line feed.
    pub open spec fn top_rows_text(&self, n: nat) -> Seq<char>
        decreases n,
    {
        if n == 0 {
            Seq::<char>::empty()
        } else {
            self.top_rows_text((n - 1) as nat) + self.row_text(self.spec_height() - n).push('\n')
        }
    }

    /// A grid of empty cells.
    pub fn new(width: u16, height: u16) -> (m: Self)
        ensures
            m.wf(),
            m.spec_width() == width,
            m.spec_height() == height,
            forall|x: int, y: int|
                0 <= x < width && 0 <= y < height ==> #[trigger] m.at(x, y) == Cell::Empty,
    {
        let mut rows: Vec<Vec<Cell>> = Vec::new();
        let mut y: u16 = 0;
        while y < height
            invariant
                y <= height,
                rows@.len() == y,
                forall|j: int| 0 <= j < y ==> (#[trigger] rows@[j])@.len() == width,
                forall|j: int, x: int| 0 <= j < y && 0 <= x < width ==> rows@[j]@[x] == Cell::Empty,
            decreases height - y,
        {
            let mut row: Vec<Cell> = Vec::new();
            let mut x: u16 = 0;
            while x < width
                invariant
                    x <= width,
                    row@.len() == x,
                    forall|k: int| 0 <= k < x ==> row@[k] == Cell::Empty,
                decreases width - x,
            {
                row.push(Cell::Empty);
                x += 1;
            }
            rows.push(row);
            y += 1;
        }
        Matrix { width, height, rows }
    }

    /// The number of columns.
    pub fn width(&self) -> (r: u16)
        ensures
            r == self.spec_width(),
    {
        self.width
    }

    /// The number of rows.
    pub fn height(&self) -> (r: u16)
        ensures
            r == self.spec_height(),
    {
        self.height
    }

    /// What the cell in column `x` of row `y` holds, or which of the two
    /// indices lies outside the grid (the row is looked at first).
    pub fn get(&self, x: u16, y: u16) -> (r: LoongCtrlResult<Cell>)
        requires
            self.wf(),
        ensures
            r == if y >= self.spec_height() {
                Err::<Cell, LoongCtrlErr>(LoongCtrlErr::RowIndexOutOfBounds(y))
            } else if x >= self.spec_width() {
                Err::<Cell, LoongCtrlErr>(LoongCtrlErr::ColumnIndexOutOfBounds(x))
            } else {
                Ok::<Cell, LoongCtrlErr>(self.at(x as int, y as int))
            },
    {
        if y >= self.height {
            return Err(LoongCtrlErr::RowIndexOutOfBounds(y));
        }
        if x >= self.width {
            return Err(LoongCtrlErr::ColumnIndexOutOfBounds(x));
        }
        Ok(self.rows[y as usize][x as usize])
    }

    /// Writes `with` into every cell of the grid that `cells` names; cells
    /// outside the grid are passed over.
    pub fn mark(&mut self, cells: &Vec<Point>, with: Cell)
        requires
            old(self).wf(),
        ensures
            final(self).wf(),
            final(self).spec_width() == old(self).spec_width(),
            final(self).spec_height() == old(self).spec_height(),
            forall|x: int, y: int|
                0 <= x < old(self).spec_width() && 0 <= y < old(self).spec_height()
                    ==> #[trigger] final(self).at(x, y) == if cells@.contains(
                    Point(x as u16, y as u16),
                ) {
                    with
                } else {
                    old(self).at(x, y)
                },
    {
        let mut i: usize = 0;
        while i < cells.len()
            invariant
                i <= cells.len(),
                self.wf(),
                self.width == old(self).width,
                self.height == old(self).height,
                forall|x: int, y: int|
                    0 <= x < self.width && 0 <= y < self.height ==> #[trigger] self.rows@[y]@[x]
                        == if among_first(cells@, i as int, Point(x as u16, y as u16)) {
                        with
                    } else {
                        old(self).rows@[y]@[x]
                    },
            decreases cells.len() - i,
        {
            let p = cells[i];
            let ghost before = self.rows@;
            if p.0 < self.width && p.1 < self.height {
                self.rows[p.1 as usize][p.0 as usize] = with;
            }
            proof {
                assert forall|x: int, y: int|
                    0 <= x < self.width && 0 <= y < self.height implies #[trigger] self.rows@[y]@[x]
                    == if among_first(cells@, i + 1, Point(x as u16, y as u16)) {
                    with
                } else {
                    old(self).rows@[y]@[x]
                } by {
                    let q = Point(x as u16, y as u16);
                    if q == p {
                        assert(cells@[i as int] == q);
                    } else {
                        assert(self.rows@[y]@[x] == before[y]@[x]);
                        if among_first(cells@, i + 1, q) {
                            let j = choose|j: int| 0 <= j < i + 1 && #[trigger] cells@[j] == q;
                            assert(j < i);
                        }
                        if among_first(cells@, i as int, q) {
                            let j = choose|j: int| 0 <= j < i && #[trigger] cells@[j] == q;
                            assert(0 <= j < i + 1 && cells@[j] == q);
                        }
                    }
                }
            }
            i += 1;
        }
        proof {
            assert forall|q: Point| #[trigger]
                among_first(cells@, cells@.len() as int, q) == cells@.contains(q) by {}
        }
    }

    /// Marks the creature's cells.
    pub fn add_loong(&mut self, body: &Vec<Point>)
        requires
            old(self).wf(),
        ensures
            final(self).wf(),
            final(self).spec_width() == old(self).spec_width(),
            final(self).spec_height() == old(self).spec_height(),
            forall|x: int, y: int|
                0 <= x < old(self).spec_width() && 0 <= y < old(self).spec_height()
                    ==> #[trigger] final(self).at(x, y) == if body@.contains(
                    Point(x as u16, y as u16),
                ) {
                    Cell::Loong
                } else {
                    old(self).at(x, y)
                },
    {
        self.mark(body, Cell::Loong);
    }

    /// Marks the food's cells.
    pub fn add_food(&mut self, food: &Food)
        requires
            old(self).wf(),
        ensures
            final(self).wf(),
            final(self).spec_width() == old(self).spec_width(),
            final(self).spec_height() == old(self).spec_height(),
            forall|x: int, y: int|
                0 <= x < old(self).spec_width() && 0 <= y < old(self).spec_height()
                    ==> #[trigger] final(self).at(x, y) == if food.positions@.contains(
                    Point(x as u16, y as u16),
                ) {
                    Cell::Food
                } else {
                    old(self).at(x, y)
                },
    {
        self.mark(&food.positions, Cell::Food);
    }

    /// The grid as text: one line for each row, the top row first, a dot
    /// for an empty cell, `#` for the creature and `*` for food.
    pub fn render(&self) -> (r: String)
        requires
            self.wf(),
        ensures
            r@ == self.top_rows_text(self.spec_height() as nat),
    {
        let mut chars: Vec<char> = Vec::new();
        let mut done: u16 = 0;
        while done < self.height
            invariant
                done <= self.height,
                self.wf(),
                chars@ == self.top_rows_text(done as nat),
            decreases self.height - done,
        {
            let y: u16 = self.height - 1 - done;
            let ghost start = chars@;
            let mut x: u16 = 0;
            while x < self.width
                invariant
                    x <= self.width,
                    self.wf(),
                    y < self.height,
                    chars@ == start + self.row_text(y as int).take(x as int),
                decreases self.width - x,
            {
                chars.push(self.rows[y as usize][x as usize].to_char());
                assert(chars@ =~= start + self.row_text(y as int).take(x + 1));
                x += 1;
            }
            chars.push('\n');
            assert(self.row_text(y as int).take(self.width as int) =~= self.row_text(y as int));
            assert(chars@ =~= start + self.row_text(self.spec_height() - (done + 1)).push('\n'));
            done += 1;
        }
        text_of(&chars)
    }
}

} // verus!
