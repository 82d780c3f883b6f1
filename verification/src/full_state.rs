//! Classification of the body's segments for rendering: head, tail,
//! straight piece or corner, with the optional mirroring on the
//! horizontal axis.

use vstd::prelude::*;
use crate::board::{copy_points, Food, Loong};
use crate::geometry::{Direction, Point};

verus! {

/// The four ways a corner piece can bend.
#[derive(Copy, Clone, Eq, PartialEq, Debug, Structural)]
pub enum LoongCornerVariant {
    TopLeft,
    TopRight,
    BottomLeft,
    BottomRight,
}

impl LoongCornerVariant {
    /// The corner as it looks after mirroring on the horizontal axis.
    pub open spec fn flipped(self) -> LoongCornerVariant {
        match self {
            LoongCornerVariant::TopLeft => LoongCornerVariant::BottomLeft,
            LoongCornerVariant::TopRight => LoongCornerVariant::BottomRight,
            LoongCornerVariant::BottomLeft => LoongCornerVariant::TopLeft,
            LoongCornerVariant::BottomRight => LoongCornerVariant::TopRight,
        }
    }

    /// The corner for a segment entered in direction `incoming` and left in
    /// direction `outgoing`, for two directions on different axes.
    pub open spec fn joining(incoming: Direction, outgoing: Direction) -> LoongCornerVariant {
        match incoming {
            Direction::Top => if outgoing == Direction::Right {
                LoongCornerVariant::BottomLeft
            } else {
                LoongCornerVariant::BottomRight
            },
            Direction::Bottom => if outgoing == Direction::Right {
                LoongCornerVariant::TopLeft
            } else {
                LoongCornerVariant::TopRight
            },
            Direction::Left => if outgoing == Direction::Top {
                LoongCornerVariant::TopLeft
            } else {
                LoongCornerVariant::BottomLeft
            },
            Direction::Right => if outgoing == Direction::Top {
                LoongCornerVariant::TopRight
            } else {
                LoongCornerVariant::BottomRight
            },
        }
    }

    /// The corner mirrored on the horizontal axis.
    pub fn reverse_y(&self) -> (r: Self)
        ensures
            r == self.flipped(),
    {
        match self {
            LoongCornerVariant::TopLeft => LoongCornerVariant::BottomLeft,
            LoongCornerVariant::TopRight => LoongCornerVariant::BottomRight,
            LoongCornerVariant::BottomLeft => LoongCornerVariant::TopLeft,
            LoongCornerVariant::BottomRight => LoongCornerVariant::TopRight,
        }
    }

    /// The corner that joins the two directions.
    pub fn corner_of(incoming: Direction, outgoing: Direction) -> (r: Self)
        ensures
            r == LoongCornerVariant::joining(incoming, outgoing),
    {
        match (incoming, outgoing) {
            (Direction::Top, Direction::Right) => LoongCornerVariant::BottomLeft,
            (Direction::Top, _) => LoongCornerVariant::BottomRight,
            (Direction::Bottom, Direction::Right) => LoongCornerVariant::TopLeft,
            (Direction::Bottom, _) => LoongCornerVariant::TopRight,
            (Direction::Left, Direction::Top) => LoongCornerVariant::TopLeft,
            (Direction::Left, _) => LoongCornerVariant::BottomLeft,
            (Direction::Right, Direction::Top) => LoongCornerVariant::TopRight,
            (Direction::Right, _) => LoongCornerVariant::BottomRight,
        }
    }
}

/// What a segment is drawn as.
#[derive(Copy, Clone, Eq, PartialEq, Debug, Structural)]
pub enum LoongPartVariant {
    /// The head, with the direction the creature moves in.
    Head(Direction),
    /// The tail, with the direction it points in.
    Tail(Direction),
    /// A straight piece; `true` if it runs vertically.
    Body(bool),
    /// A bend.
    Corner(LoongCornerVariant),
}

impl LoongPartVariant {
    /// The variant after mirroring on the horizontal axis: corners are
    /// mirrored, every other variant stays as it is.
    pub open spec fn flipped(self) -> LoongPartVariant {
        match self {
            LoongPartVariant::Corner(v) => LoongPartVariant::Corner(v.flipped()),
            other => other,
        }
    }
}

/// One classified segment.
#[derive(Copy, Clone, Eq, PartialEq, Debug, Structural)]
pub struct LoongPart {
    pub point: Point,
    pub variant: LoongPartVariant,
}

impl LoongPart {
    /// The segment after mirroring on the horizontal axis of a grid of
    /// height `dimension_y`.
    pub open spec fn flipped(self, dimension_y: u16) -> LoongPart {
        LoongPart { point: self.point.mirrored(dimension_y), variant: self.variant.flipped() }
    }

    /// A segment at `p` drawn as `v`.
    pub fn new(p: Point, v: LoongPartVariant) -> (r: LoongPart)
        ensures
            r == (LoongPart { point: p, variant: v }),
    {
        LoongPart { point: p, variant: v }
    }

    /// Mirrors the segment on the horizontal axis.
    pub fn reverse_y(&mut self, dimension_y: u16)
        requires
            old(self).point.1 <= dimension_y,
        ensures
            *final(self) == old(self).flipped(dimension_y),
    {
        self.point.reverse_y(dimension_y);
        if let LoongPartVariant::Corner(v) = self.variant {
            self.variant = LoongPartVariant::Corner(v.reverse_y());
        }
    }
}

/// The classified position handed to a renderer.
pub struct LoongCtrlFullState {
    pub loong: Vec<LoongPart>,
    pub food: Vec<Point>,
    pub direction: Direction,
}

/// The direction of the step from `from` to `to`, for two cells in one row
/// or column. Cells that are not at distance one lie across a seam, where
/// the step runs against the way the coordinates compare.
pub open spec fn facing(from: Point, to: Point) -> Direction
    recommends
        from.aligned(to),
{
    let d = to.offset_from(from).unwrap();
    if from.near(to) {
        d
    } else {
        d.spec_opposite()
    }
}

/// The variant of an inner segment `curr` that was entered from `prev` (its
/// neighbour on the tail's side) and is left towards `next` (its neighbour
/// on the head's side).
pub open spec fn inner_variant(prev: Point, curr: Point, next: Point) -> LoongPartVariant
    recommends
        prev.aligned(curr),
        curr.aligned(next),
{
    let a = curr.offset_from(prev).unwrap();
    let b = next.offset_from(curr).unwrap();
    if a.spec_is_vertical() == b.spec_is_vertical() {
        LoongPartVariant::Body(a.spec_is_vertical())
    } else {
        LoongPartVariant::Corner(
            LoongCornerVariant::joining(facing(prev, curr), facing(curr, next)),
        )
    }
}

/// The variant of segment `i` of `body`, for a creature that moves in
/// `direction`.
pub open spec fn variant_at(body: Seq<Point>, i: int, direction: Direction) -> LoongPartVariant
    recommends
        0 <= i < body.len(),
{
    if i == 0 {
        LoongPartVariant::Head(direction)
    } else if i == body.len() - 1 {
        LoongPartVariant::Tail(facing(body[i - 1], body[i]))
    } else {
        inner_variant(body[i + 1], body[i], body[i - 1])
    }
}

/// The classified segments of `body`, one for each cell and in its order.
pub open spec fn classified(body: Seq<Point>, direction: Direction) -> Seq<LoongPart> {
    Seq::new(
        body.len(),
        |i: int| LoongPart { point: body[i], variant: variant_at(body, i, direction) },
    )
}

/// Every segment mirrored on the horizontal axis.
pub open spec fn flipped_parts(parts: Seq<LoongPart>, dimension_y: u16) -> Seq<LoongPart> {
    Seq::new(parts.len(), |i: int| parts[i].flipped(dimension_y))
}

/// Every cell mirrored on the horizontal axis.
pub open spec fn mirrored_all(cells: Seq<Point>, dimension_y: u16) -> Seq<Point> {
    Seq::new(cells.len(), |i: int| cells[i].mirrored(dimension_y))
}

/// No cell lies above row `dimension_y`.
pub open spec fn all_within(cells: Seq<Point>, dimension_y: u16) -> bool {
    forall|i: int| 0 <= i < cells.len() ==> (#[trigger] cells[i]).1 <= dimension_y
}

/// Every two consecutive cells share a row or a column.
pub open spec fn all_aligned(cells: Seq<Point>) -> bool {
    forall|i: int| 0 <= i < cells.len() - 1 ==> (#[trigger] cells[i]).aligned(cells[i + 1])
}

/// Mirrors every cell of `cells` on the horizontal axis.
pub fn mirror_points(cells: &mut Vec<Point>, dimension_y: u16)
    requires
        all_within(old(cells)@, dimension_y),
    ensures
        final(cells)@ == mirrored_all(old(cells)@, dimension_y),
{
    let n = cells.len();
    let mut i: usize = 0;
    while i < n
        invariant
            i <= n,
            n == cells@.len(),
            cells@.len() == old(cells)@.len(),
            forall|j: int| 0 <= j < i ==> cells@[j] == old(cells)@[j].mirrored(dimension_y),
            forall|j: int| i <= j < n ==> cells@[j] == old(cells)@[j],
            all_within(old(cells)@, dimension_y),
        decreases n - i,
    {
        let mut p = cells[i];
        p.reverse_y(dimension_y);
        cells.set(i, p);
        i += 1;
    }
    assert(cells@ =~= mirrored_all(old(cells)@, dimension_y));
}

/// Classifies every segment of the creature and, if `reverse_y` is set,
/// mirrors segments and food on the horizontal axis.
pub fn calc_full_state(
    loong: &Loong,
    food: &Food,
    current_direction: Direction,
    dim_y: u16,
    reverse_y: bool,
) -> (r: LoongCtrlFullState)
    requires
        loong.body@.len() >= 1,
        all_aligned(loong.body@),
        reverse_y ==> all_within(loong.body@, dim_y) && all_within(food.positions@, dim_y),
    ensures
        r.direction == current_direction,
        r.loong@ == if reverse_y {
            flipped_parts(classified(loong.body@, current_direction), dim_y)
        } else {
            classified(loong.body@, current_direction)
        },
        r.food@ == if reverse_y {
            mirrored_all(food.positions@, dim_y)
        } else {
            food.positions@
        },
{
    let loong_len = loong.body.len();
    let max_ind = loong_len - 1;
    let ghost plain = classified(loong.body@, current_direction);
    let mut result: Vec<LoongPart> = Vec::new();
    let mut ind: usize = 0;
    while ind < loong_len
        invariant
            ind <= loong_len,
            loong_len == loong.body@.len(),
            max_ind == loong_len - 1,
            all_aligned(loong.body@),
            plain == classified(loong.body@, current_direction),
            result@ == plain.take(ind as int),
        decreases loong_len - ind,
    {
        let curr_point = loong.body[ind];
        let variant = if ind == 0 {
            LoongPartVariant::Head(current_direction)
        } else if ind == max_ind {
            let pre_tail = loong.body[max_ind - 1];
            assert(loong.body@[max_ind - 1].aligned(loong.body@[max_ind - 1 + 1]));
            LoongPartVariant::Tail(step_direction(&pre_tail, &curr_point))
        } else {
            let prev = loong.body[ind + 1];
            let next = loong.body[ind - 1];
            assert(loong.body@[ind as int].aligned(loong.body@[ind + 1]));
            assert(loong.body@[ind - 1].aligned(loong.body@[ind - 1 + 1]));
            get_body_part_variant(&prev, &curr_point, &next)
        };
        result.push(LoongPart::new(curr_point, variant));
        assert(result@ =~= plain.take(ind + 1));
        ind += 1;
    }
    assert(plain.take(loong_len as int) =~= plain);

    let mut f = copy_points(&food.positions);
    if reverse_y {
        mirror_points(&mut f, dim_y);
        let mut k: usize = 0;
        while k < loong_len
            invariant
                k <= loong_len,
                loong_len == loong.body@.len(),
                result@.len() == loong_len,
                plain == classified(loong.body@, current_direction),
                all_within(loong.body@, dim_y),
                forall|j: int| 0 <= j < k ==> result@[j] == plain[j].flipped(dim_y),
                forall|j: int| k <= j < loong_len ==> result@[j] == plain[j],
            decreases loong_len - k,
        {
            let mut part = result[k];
            assert(part.point == loong.body@[k as int]);
            part.reverse_y(dim_y);
            result.set(k, part);
            k += 1;
        }
        assert(result@ =~= flipped_parts(plain, dim_y));
    }
    LoongCtrlFullState { loong: result, food: f, direction: current_direction }
}

/// The direction of the step from `from` to `to`, corrected for a seam
/// between the two.
pub fn step_direction(from: &Point, to: &Point) -> (r: Direction)
    requires
        from.aligned(*to),
    ensures
        r == facing(*from, *to),
{
    let d = match to.offset_from_near(from) {
        Some(d) => d,
        None => Direction::Top,
    };
    if from.is_near_with(to) {
        d
    } else {
        d.opposite_direction()
    }
}

/// Classifies an inner segment as a straight piece or a corner.
pub fn get_body_part_variant(prev: &Point, curr: &Point, next: &Point) -> (r: LoongPartVariant)
    requires
        prev.aligned(*curr),
        curr.aligned(*next),
    ensures
        r == inner_variant(*prev, *curr, *next),
{
    let offset_from_prev = match curr.offset_from_near(prev) {
        Some(d) => d,
        None => Direction::Top,
    };
    let offset_from_next = match next.offset_from_near(curr) {
        Some(d) => d,
        None => Direction::Top,
    };
    if offset_from_prev == offset_from_next || offset_from_prev
        == offset_from_next.opposite_direction() {
        return LoongPartVariant::Body(offset_from_prev.is_vertical());
    }
    LoongPartVariant::Corner(
        LoongCornerVariant::corner_of(step_direction(prev, curr), step_direction(curr, next)),
    )
}

/// Mirroring a segment twice on the same height gives the segment back:
/// its cell and, for a corner, its orientation.
pub proof fn flip_twice_part(p: LoongPart, dimension_y: u16)
    requires
        p.point.1 <= dimension_y,
    ensures
        p.flipped(dimension_y).point.1 <= dimension_y,
        p.flipped(dimension_y).flipped(dimension_y) == p,
{
}

/// Mirroring a classified body and its food twice on the same height
/// gives both back unchanged.
pub proof fn flip_twice_is_identity(parts: Seq<LoongPart>, food: Seq<Point>, dimension_y: u16)
    requires
        forall|i: int| 0 <= i < parts.len() ==> (#[trigger] parts[i]).point.1 <= dimension_y,
        all_within(food, dimension_y),
    ensures
        flipped_parts(flipped_parts(parts, dimension_y), dimension_y) == parts,
        mirrored_all(mirrored_all(food, dimension_y), dimension_y) == food,
        all_within(mirrored_all(food, dimension_y), dimension_y),
{
    assert forall|i: int| 0 <= i < parts.len() implies flipped_parts(
        flipped_parts(parts, dimension_y),
        dimension_y,
    )[i] == parts[i] by {
        flip_twice_part(parts[i], dimension_y);
    }
    assert(flipped_parts(flipped_parts(parts, dimension_y), dimension_y) =~= parts);
    assert(mirrored_all(mirrored_all(food, dimension_y), dimension_y) =~= food);
}

} // verus!
