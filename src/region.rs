use vstd::prelude::*;

verus! {

/// The axis along which a ship extends from its start cell.
#[derive(Clone, Copy, Debug, PartialEq, Eq, Structural)]
pub enum Direction {
    /// Along the x axis (columns).
    Horizontal,
    /// Along the y axis (rows).
    Vertical,
}

/// Why a ship placement was rejected.
#[derive(Clone, Copy, Debug, PartialEq, Eq)]
pub enum PlacementError {
    /// The given point (x, y) lies outside the grid.
    OutOfBounds((i32, i32)),
    /// The ship length is zero or negative.
    InvalidLength,
    /// The placement overlaps a ship already on the board.
    Collision,
}

/// One placed ship: the segment of cells from `start` to `end`, both
/// inclusive, as `(x, y)` pairs.
#[derive(Clone, Copy, Debug, PartialEq, Eq)]
pub struct BoundingBox {
    pub ship_id: i16,
    pub start: (i16, i16),
    pub end: (i16, i16),
}

/// The last cell of a ship of `length` cells laid from `start` along `direction`.
pub open spec fn end_point(start: (i16, i16), length: i16, direction: Direction) -> (int, int) {
    match direction {
        Direction::Horizontal => (start.0 + length - 1, start.1 as int),
        Direction::Vertical => (start.0 as int, start.1 + length - 1),
    }
}

/// `p` lies in `[0, width) x [0, height)`.
pub open spec fn in_grid(p: (int, int), width: int, height: int) -> bool {
    0 <= p.0 < width && 0 <= p.1 < height
}

/// What placing a ship yields on a grid of `width` columns and `height` rows:
/// the start is checked first, then the end, then the length, so that a
/// length that is not positive is reported only where both ends lie on the
/// grid. Cells are
/// addressed by `i16` coordinates, so an end past `i16::MAX` lies off the
/// usable grid even where the grid is larger.
pub open spec fn placement(
    ship_id: i16,
    start: (i16, i16),
    length: i16,
    direction: Direction,
    width: int,
    height: int,
) -> Result<BoundingBox, PlacementError> {
    let end = end_point(start, length, direction);
    if !in_grid((start.0 as int, start.1 as int), width, height) {
        Err(PlacementError::OutOfBounds((start.0 as i32, start.1 as i32)))
    } else if !in_grid(end, width, height) || end.0 > i16::MAX || end.1 > i16::MAX {
        Err(PlacementError::OutOfBounds((end.0 as i32, end.1 as i32)))
    } else if length <= 0 {
        Err(PlacementError::InvalidLength)
    } else {
        Ok(BoundingBox { ship_id, start, end: (end.0 as i16, end.1 as i16) })
    }
}

/// The placement of a ship on a grid whose sides are given as `i32`, so that
/// a grid larger than `i16` allows can be checked exactly.
pub(crate) fn place_in(
    ship_id: i16,
    start: (i16, i16),
    length: i16,
    direction: Direction,
    width: i32,
    height: i32,
) -> (r: Result<BoundingBox, PlacementError>)
    ensures
        r == placement(ship_id, start, length, direction, width as int, height as int),
{
    let (sx, sy) = (start.0 as i32, start.1 as i32);
    if sx < 0 || sx >= width || sy < 0 || sy >= height {
        return Err(PlacementError::OutOfBounds((sx, sy)));
    }
    let end: (i32, i32) = match direction {
        Direction::Horizontal => (sx + length as i32 - 1, sy),
        Direction::Vertical => (sx, sy + length as i32 - 1),
    };
    if end.0 < 0 || end.0 >= width || end.1 < 0 || end.1 >= height || end.0 > i16::MAX as i32
        || end.1 > i16::MAX as i32 {
        return Err(PlacementError::OutOfBounds(end));
    }
    if length <= 0 {
        return Err(PlacementError::InvalidLength);
    }
    Ok(BoundingBox { ship_id, start, end: (end.0 as i16, end.1 as i16) })
}

impl BoundingBox {
    /// Places ship `ship_id` of `length` cells at `start` along `direction`
    /// on a grid of `board_width` columns and `board_height` rows.
    ///
    /// The start is checked first (`OutOfBounds(start)`), then the end
    /// (`OutOfBounds(end)`), then the length (`InvalidLength` when it is not
    /// positive).
    pub fn new(
        ship_id: i16,
        start: (i16, i16),
        length: i16,
        direction: Direction,
        board_width: i16,
        board_height: i16,
    ) -> (r: Result<Self, PlacementError>)
        ensures
            r == placement(ship_id, start, length, direction, board_width as int, board_height as int),
    {
        place_in(ship_id, start, length, direction, board_width as i32, board_height as i32)
    }

    /// Start and end are ordered and differ on at most one axis.
    pub open spec fn well_formed(&self) -> bool {
        &&& self.start.0 <= self.end.0
        &&& self.start.1 <= self.end.1
        &&& (self.start.0 == self.end.0 || self.start.1 == self.end.1)
    }

    /// The cell `p` is one of this ship's cells.
    pub open spec fn covers(&self, p: (int, int)) -> bool {
        self.start.0 <= p.0 <= self.end.0 && self.start.1 <= p.1 <= self.end.1
    }

    /// The bounding rectangles of the two ships intersect.
    pub open spec fn overlaps(&self, other: &BoundingBox) -> bool {
        &&& self.start.0 <= other.end.0 && self.end.0 >= other.start.0
        &&& self.start.1 <= other.end.1 && self.end.1 >= other.start.1
    }

    /// Whether this ship and `other` overlap.
    pub fn collision(&self, other: &BoundingBox) -> (r: bool)
        ensures
            r == self.overlaps(other),
    {
        let x_overlap = self.start.0 <= other.end.0 && self.end.0 >= other.start.0;
        let y_overlap = self.start.1 <= other.end.1 && self.end.1 >= other.start.1;
        x_overlap && y_overlap
    }
}

/// A ship of positive length whose start and end both lie on the grid is
/// placed, and the placed ship lies on the grid.
pub proof fn lemma_valid_placement_succeeds(
    ship_id: i16,
    start: (i16, i16),
    length: i16,
    direction: Direction,
    width: i16,
    height: i16,
)
    requires
        length > 0,
        in_grid((start.0 as int, start.1 as int), width as int, height as int),
        in_grid(end_point(start, length, direction), width as int, height as int),
    ensures
        placement(ship_id, start, length, direction, width as int, height as int) is Ok,
        ({
            let b = placement(ship_id, start, length, direction, width as int, height as int).unwrap();
            &&& b.well_formed()
            &&& b.start == start
            &&& in_grid((b.start.0 as int, b.start.1 as int), width as int, height as int)
            &&& in_grid((b.end.0 as int, b.end.1 as int), width as int, height as int)
        }),
{
}

/// A ship whose start lies off the grid is rejected with `OutOfBounds` at
/// that start, whatever its length and direction.
pub proof fn lemma_start_off_grid_rejected(
    ship_id: i16,
    start: (i16, i16),
    length: i16,
    direction: Direction,
    width: i16,
    height: i16,
)
    requires
        start.0 < 0 || start.0 >= width || start.1 < 0 || start.1 >= height,
    ensures
        placement(ship_id, start, length, direction, width as int, height as int) == Err::<BoundingBox, PlacementError>(
            PlacementError::OutOfBounds((start.0 as i32, start.1 as i32)),
        ),
{
}

/// Every placed ship starts where asked, is well formed and lies on the grid.
pub proof fn lemma_placed_on_grid(
    ship_id: i16,
    start: (i16, i16),
    length: i16,
    direction: Direction,
    width: i16,
    height: i16,
)
    requires
        placement(ship_id, start, length, direction, width as int, height as int) is Ok,
    ensures
        ({
            let b = placement(ship_id, start, length, direction, width as int, height as int).unwrap();
            &&& b.well_formed()
            &&& b.start == start
            &&& (b.end.0 as int, b.end.1 as int) == end_point(start, length, direction)
            &&& in_grid((b.start.0 as int, b.start.1 as int), width as int, height as int)
            &&& in_grid((b.end.0 as int, b.end.1 as int), width as int, height as int)
        }),
{
}

/// Overlap does not depend on the order of the two ships.
pub proof fn lemma_overlap_symmetric(a: BoundingBox, b: BoundingBox)
    ensures
        a.overlaps(&b) == b.overlaps(&a),
{
}

/// Two well-formed ships overlap exactly when some cell is covered by both;
/// in particular ships whose x ranges or whose y ranges are disjoint never
/// overlap.
pub proof fn lemma_overlap_iff_shared_cell(a: BoundingBox, b: BoundingBox)
    requires
        a.well_formed(),
        b.well_formed(),
    ensures
        a.overlaps(&b) <==> exists|p: (int, int)| a.covers(p) && b.covers(p),
        (a.end.0 < b.start.0 || b.end.0 < a.start.0 || a.end.1 < b.start.1 || b.end.1 < a.start.1)
            ==> !a.overlaps(&b),
{
    if a.overlaps(&b) {
        let x: int = if a.start.0 >= b.start.0 { a.start.0 as int } else { b.start.0 as int };
        let y: int = if a.start.1 >= b.start.1 { a.start.1 as int } else { b.start.1 as int };
        assert(a.covers((x, y)) && b.covers((x, y)));
    }
}

} // verus!
