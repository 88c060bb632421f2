use vstd::prelude::*;

use crate::region::{placement, place_in, in_grid, BoundingBox, Direction, PlacementError};

verus! {

/// Marker of a cell that holds nothing.
pub const EMPTY: usize = 0;

/// Marker of a cell covered by a placed ship.
pub const OCCUPIED: usize = 1;

/// The mathematical content of a [`PlayBoard`].
pub struct BoardView {
    pub name: Seq<char>,
    pub num: usize,
    /// Placed ships, in placement order.
    pub ships: Seq<BoundingBox>,
    /// Cell markers, indexed by row and then column.
    pub grid: Seq<Seq<usize>>,
    pub rows: nat,
    pub cols: nat,
}

/// Some ship of `ships` overlaps `b`.
pub open spec fn collides_any(ships: Seq<BoundingBox>, b: BoundingBox) -> bool {
    exists|i: int| 0 <= i < ships.len() && #[trigger] ships[i].overlaps(&b)
}

/// `grid` with every cell of the rectangle from `lo` to `hi` (both
/// inclusive) marked occupied; a cell at row `r` and column `c` is the point
/// `(c, r)`.
pub open spec fn mark_rect(grid: Seq<Seq<usize>>, lo: (int, int), hi: (int, int)) -> Seq<Seq<usize>> {
    Seq::new(
        grid.len(),
        |r: int|
            Seq::new(
                grid[r].len(),
                |c: int|
                    if lo.0 <= c <= hi.0 && lo.1 <= r <= hi.1 {
                        OCCUPIED
                    } else {
                        grid[r][c]
                    },
            ),
    )
}

/// `grid` with every cell that `b` covers marked occupied.
pub open spec fn mark_ship(grid: Seq<Seq<usize>>, b: BoundingBox) -> Seq<Seq<usize>> {
    mark_rect(grid, (b.start.0 as int, b.start.1 as int), (b.end.0 as int, b.end.1 as int))
}

impl BoardView {
    /// The grid is `rows` by `cols`; every ship is well formed, lies on the
    /// grid and overlaps no other ship.
    pub open spec fn wf(&self) -> bool {
        &&& self.grid.len() == self.rows
        &&& forall|r: int| 0 <= r < self.rows ==> (#[trigger] self.grid[r]).len() == self.cols
        &&& forall|i: int|
            0 <= i < self.ships.len() ==> {
                let s = #[trigger] self.ships[i];
                &&& s.well_formed()
                &&& in_grid((s.start.0 as int, s.start.1 as int), self.cols as int, self.rows as int)
                &&& in_grid((s.end.0 as int, s.end.1 as int), self.cols as int, self.rows as int)
            }
        &&& forall|i: int, j: int|
            #![trigger self.ships[i], self.ships[j]]
            0 <= i < self.ships.len() && 0 <= j < self.ships.len() && i != j
                ==> !self.ships[i].overlaps(&self.ships[j])
    }

    /// This board after ship `b` is placed on it.
    pub open spec fn with_ship(self, b: BoundingBox) -> BoardView {
        BoardView { ships: self.ships.push(b), grid: mark_ship(self.grid, b), ..self }
    }

    /// What placing a ship does to this board: the placement is checked
    /// against the grid, then against every ship already placed.
    pub open spec fn place(
        self,
        ship_id: i16,
        start: (i16, i16),
        length: i16,
        direction: Direction,
    ) -> (Result<(), PlacementError>, BoardView) {
        match placement(ship_id, start, length, direction, self.cols as int, self.rows as int) {
            Err(e) => (Err(e), self),
            Ok(b) => if collides_any(self.ships, b) {
                (Err(PlacementError::Collision), self)
            } else {
                (Ok(()), self.with_ship(b))
            },
        }
    }
}

/// One player's grid of cell markers and the ships placed on it.
pub struct PlayBoard {
    playername: String,
    playernum: usize,
    ships: Vec<BoundingBox>,
    mine: Vec<Vec<usize>>,
    rows: usize,
    cols: usize,
}

/// Stores `val` at row `r` and column `c` of `grid`, whose rows all have
/// `width` cells.
fn write_cell(grid: &mut Vec<Vec<usize>>, width: usize, r: usize, c: usize, val: usize)
    requires
        r < old(grid)@.len(),
        c < width,
        forall|i: int| 0 <= i < old(grid)@.len() ==> (#[trigger] old(grid)@[i])@.len() == width,
    ensures
        final(grid)@.len() == old(grid)@.len(),
        forall|i: int| 0 <= i < final(grid)@.len() ==> (#[trigger] final(grid)@[i])@.len() == width,
        forall|i: int|
            0 <= i < old(grid)@.len() ==> (#[trigger] final(grid)@[i])@ == if i == r {
                old(grid)@[i]@.update(c as int, val)
            } else {
                old(grid)@[i]@
            },
    no_unwind
{
    grid[r][c] = val;
}

impl PlayBoard {
    /// Every board is well formed.
    #[verifier::type_invariant]
    pub open spec fn inv(&self) -> bool {
        self@.wf()
    }
}

impl View for PlayBoard {
    type V = BoardView;

    closed spec fn view(&self) -> BoardView {
        BoardView {
            name: self.playername@,
            num: self.playernum,
            ships: self.ships@,
            grid: self.mine@.map_values(|row: Vec<usize>| row@),
            rows: self.rows as nat,
            cols: self.cols as nat,
        }
    }
}

/// An empty board of `rows` by `cols` cells, with no name, player number 0
/// and no ships.
pub fn create_player(rows: usize, cols: usize) -> (r: PlayBoard)
    ensures
        r@.wf(),
        r@.rows == rows,
        r@.cols == cols,
        r@.name.len() == 0,
        r@.num == 0,
        r@.ships.len() == 0,
        forall|i: int, j: int| 0 <= i < rows && 0 <= j < cols ==> r@.grid[i][j] == EMPTY,
{
    let mut mine: Vec<Vec<usize>> = Vec::with_capacity(rows);
    let mut i: usize = 0;
    while i < rows
        invariant
            i <= rows,
            mine@.len() == i,
            forall|k: int| 0 <= k < i ==> (#[trigger] mine@[k])@ == Seq::new(cols as nat, |c: int| EMPTY),
        decreases rows - i,
    {
        mine.push(vec![EMPTY; cols]);
        i = i + 1;
    }
    let r = PlayBoard {
        playername: String::new(),
        playernum: 0,
        ships: Vec::new(),
        mine,
        rows,
        cols,
    };
    assert forall|k: int| 0 <= k < rows implies (#[trigger] r@.grid[k]).len() == cols by {
        assert(r@.grid[k] == mine@[k]@);
    }
    assert forall|i: int, j: int| 0 <= i < rows && 0 <= j < cols implies r@.grid[i][j] == EMPTY by {
        assert(r@.grid[i] == mine@[i]@);
    }
    r
}

impl PlayBoard {
    /// The player's display name.
    pub fn get_playername(&self) -> (r: String)
        ensures
            r@ == self@.name,
    {
        self.playername.clone()
    }

    /// Replaces the player's display name; any string is accepted.
    pub fn set_playername(&mut self, name: String)
        ensures
            final(self)@ == (BoardView { name: name@, ..old(self)@ }),
    {
        proof {
            use_type_invariant(&*self);
        }
        self.playername = name;
    }

    /// The player's number.
    pub fn get_playernum(&self) -> (r: usize)
        ensures
            r == self@.num,
    {
        self.playernum
    }

    /// Replaces the player's number; any number is accepted.
    pub fn set_playernum(&mut self, num: usize)
        ensures
            final(self)@ == (BoardView { num, ..old(self)@ }),
    {
        proof {
            use_type_invariant(&*self);
        }
        self.playernum = num;
    }

    /// Stores `val` in the cell at `row` and `col`.
    pub fn set_board_loc(&mut self, row: usize, col: usize, val: usize)
        requires
            row < old(self)@.rows,
            col < old(self)@.cols,
        ensures
            final(self)@ == (BoardView {
                grid: old(self)@.grid.update(row as int, old(self)@.grid[row as int].update(col as int, val)),
                ..old(self)@
            }),
            final(self)@.wf(),
    {
        proof {
            use_type_invariant(&*self);
        }
        let ghost before = self@.grid;
        assert(self.mine@[row as int]@ == before[row as int]);
        assert forall|i: int| 0 <= i < self.mine@.len() implies (#[trigger] self.mine@[i])@.len() == self.cols by {
            assert(self.mine@[i]@ == before[i]);
        }
        write_cell(&mut self.mine, self.cols, row, col, val);
        proof {
            assert(self@.grid =~~= before.update(row as int, before[row as int].update(col as int, val)));
        }
    }

    /// The value in the cell at `row` and `col`.
    pub fn get_board_loc(&self, row: usize, col: usize) -> (r: usize)
        requires
            row < self@.rows,
            col < self@.cols,
        ensures
            r == self@.grid[row as int][col as int],
    {
        proof {
            use_type_invariant(self);
        }
        assert(self.mine@[row as int]@ == self@.grid[row as int]);
        self.mine[row][col]
    }

    /// Places ship `ship_id` of `length` cells at `start` along `direction`.
    ///
    /// The placement is rejected as [`BoundingBox::new`] rejects it on a grid
    /// of this board's size, or with `Collision` where it overlaps a ship
    /// already placed; the board is then unchanged. Otherwise the ship is
    /// appended to the board's ships and its cells are marked occupied.
    pub fn place_ship(&mut self, ship_id: i16, start: (i16, i16), length: i16, direction: Direction) -> (r:
        Result<(), PlacementError>)
        ensures
            (r, final(self)@) == old(self)@.place(ship_id, start, length, direction),
            final(self)@.wf(),
    {
        proof {
            use_type_invariant(&*self);
        }
        let width: i32 = if self.cols > i32::MAX as usize { i32::MAX } else { self.cols as i32 };
        let height: i32 = if self.rows > i32::MAX as usize { i32::MAX } else { self.rows as i32 };
        let placed = place_in(ship_id, start, length, direction, width, height);
        assert(placed == placement(ship_id, start, length, direction, self@.cols as int, self@.rows as int));
        let b = match placed {
            Ok(b) => b,
            Err(e) => return Err(e),
        };
        let mut i: usize = 0;
        while i < self.ships.len()
            invariant
                self@ == old(self)@,
                self@.wf(),
                placement(ship_id, start, length, direction, self@.cols as int, self@.rows as int) == Ok::<
                    BoundingBox,
                    PlacementError,
                >(b),
                i <= self@.ships.len(),
                forall|k: int| 0 <= k < i ==> !(#[trigger] self@.ships[k]).overlaps(&b),
            decreases self@.ships.len() - i,
        {
            if self.ships[i].collision(&b) {
                assert(self@.ships[i as int].overlaps(&b));
                return Err(PlacementError::Collision);
            }
            i = i + 1;
        }
        let ghost v = self@;
        let mut ships: Vec<BoundingBox> = Vec::new();
        std::mem::swap(&mut ships, &mut self.ships);
        ships.push(b);
        proof {
            let s = ships@;
            assert(s == v.ships.push(b));
            assert forall|i: int, j: int|
                #![trigger s[i], s[j]]
                0 <= i < s.len() && 0 <= j < s.len() && i != j implies !s[i].overlaps(&s[j]) by {
                if j == v.ships.len() {
                    assert(s[i] == v.ships[i]);
                } else if i == v.ships.len() {
                    assert(s[j] == v.ships[j]);
                    assert(!s[j].overlaps(&s[i]));
                } else {
                    assert(s[i] == v.ships[i] && s[j] == v.ships[j]);
                }
            }
            assert forall|i: int| 0 <= i < s.len() implies {
                let t = #[trigger] s[i];
                &&& t.well_formed()
                &&& in_grid((t.start.0 as int, t.start.1 as int), v.cols as int, v.rows as int)
                &&& in_grid((t.end.0 as int, t.end.1 as int), v.cols as int, v.rows as int)
            } by {
                if i < v.ships.len() {
                    assert(s[i] == v.ships[i]);
                }
            }
        }
        self.ships = ships;
        self.mark_cells(b);
        Ok(())
    }

    /// Marks every cell of `b` occupied.
    fn mark_cells(&mut self, b: BoundingBox)
        requires
            b.well_formed(),
            in_grid((b.start.0 as int, b.start.1 as int), old(self)@.cols as int, old(self)@.rows as int),
            in_grid((b.end.0 as int, b.end.1 as int), old(self)@.cols as int, old(self)@.rows as int),
        ensures
            final(self)@ == (BoardView { grid: mark_ship(old(self)@.grid, b), ..old(self)@ }),
    {
        proof {
            use_type_invariant(&*self);
        }
        let ghost g0 = self@.grid;
        let x0 = b.start.0 as usize;
        let y0 = b.start.1 as usize;
        let x1 = b.end.0 as usize;
        let y1 = b.end.1 as usize;
        let horizontal = y0 == y1;
        let mut k: usize = if horizontal { x0 } else { y0 };
        let last = if horizontal { x1 } else { y1 };
        proof {
            if horizontal {
                assert(self@.grid =~~= mark_rect(g0, (x0 as int, y0 as int), (k - 1, y1 as int)));
            } else {
                assert(self@.grid =~~= mark_rect(g0, (x0 as int, y0 as int), (x1 as int, k - 1)));
            }
        }
        while k <= last
            invariant
                self@.wf(),
                self@ == (BoardView { grid: self@.grid, ..old(self)@ }),
                horizontal ==> y0 == y1 && x0 <= k <= x1 + 1 && last == x1,
                !horizontal ==> x0 == x1 && y0 <= k <= y1 + 1 && last == y1,
                x1 < self@.cols && y1 < self@.rows,
                last < usize::MAX,
                horizontal ==> self@.grid == mark_rect(g0, (x0 as int, y0 as int), (k - 1, y1 as int)),
                !horizontal ==> self@.grid == mark_rect(g0, (x0 as int, y0 as int), (x1 as int, k - 1)),
            decreases last + 1 - k,
        {
            let (r, c) = if horizontal { (y0, k) } else { (k, x0) };
            self.set_board_loc(r, c, OCCUPIED);
            k = k + 1;
            proof {
                if horizontal {
                    assert(self@.grid =~~= mark_rect(g0, (x0 as int, y0 as int), (k - 1, y1 as int)));
                } else {
                    assert(self@.grid =~~= mark_rect(g0, (x0 as int, y0 as int), (x1 as int, k - 1)));
                }
            }
        }
    }
}

impl Clone for PlayBoard {
    /// A board with the same content.
    fn clone(&self) -> (r: Self)
        ensures
            r@ == self@,
    {
        proof {
            use_type_invariant(self);
        }
        let mut mine: Vec<Vec<usize>> = Vec::with_capacity(self.mine.len());
        let mut i: usize = 0;
        while i < self.mine.len()
            invariant
                i <= self.mine@.len(),
                mine@.len() == i,
                forall|k: int| 0 <= k < i ==> (#[trigger] mine@[k])@ == self.mine@[k]@,
            decreases self.mine@.len() - i,
        {
            let row = self.mine[i].clone();
            assert(row@ =~= self.mine@[i as int]@);
            mine.push(row);
            i = i + 1;
        }
        let ships = self.ships.clone();
        assert(ships@ =~= self.ships@);
        assert(mine@.map_values(|row: Vec<usize>| row@) =~= self@.grid);
        let r = PlayBoard {
            playername: self.playername.clone(),
            playernum: self.playernum,
            ships,
            mine,
            rows: self.rows,
            cols: self.cols,
        };
        assert(r@.grid =~= self@.grid);
        r
    }
}

} // verus!
