use vstd::prelude::*;

use crate::board::{BoardView, PlayBoard};

verus! {

/// Why a configuration change was rejected.
#[derive(Clone, Copy, Debug, PartialEq, Eq, Structural)]
pub enum ConfigError {
    /// A ship-size bound is not above 1, or the smallest size exceeds the largest.
    InvalidShipSize,
    /// The player count is already 0.
    Underflow,
}

/// The mathematical content of a [`GameData`].
pub struct GameView {
    pub rows: usize,
    pub cols: usize,
    pub player_count: usize,
    pub loaded: bool,
    pub interactive: bool,
    pub filename: Seq<char>,
    pub smallest: usize,
    pub largest: usize,
    /// One board per player, in the order they were added.
    pub boards: Seq<BoardView>,
}

impl GameView {
    /// Both ship-size bounds are above 1 and the smallest is at most the largest.
    pub open spec fn wf(&self) -> bool {
        1 < self.smallest <= self.largest
    }
}

/// The largest ship size that a request for `small` and `large` settles on:
/// `large` where it is given, else `small + 5`.
pub open spec fn resolved_largest(small: usize, large: Option<usize>) -> int {
    match large {
        Some(l) => l as int,
        None => small + 5,
    }
}

/// Whether ship sizes from `small` to `largest` are accepted.
pub open spec fn valid_ship_sizes(small: int, largest: int) -> bool {
    1 < small && 1 < largest && small <= largest
}

/// The most recently added board, if any.
pub open spec fn last_board(boards: Seq<BoardView>) -> Option<BoardView> {
    if boards.len() == 0 {
        None
    } else {
        Some(boards.last())
    }
}

/// The boards left once the most recently added one is removed.
pub open spec fn without_last(boards: Seq<BoardView>) -> Seq<BoardView> {
    if boards.len() == 0 {
        boards
    } else {
        boards.drop_last()
    }
}

/// The board of player `n`, if there is one.
pub open spec fn board_at(boards: Seq<BoardView>, n: int) -> Option<BoardView> {
    if 0 <= n < boards.len() {
        Some(boards[n])
    } else {
        None
    }
}

/// The content of an optional board.
pub open spec fn board_view_of(b: Option<PlayBoard>) -> Option<BoardView> {
    match b {
        Some(b) => Some(b@),
        None => None,
    }
}

/// The game-wide configuration and the boards of all players.
pub struct GameData {
    rows: usize,
    cols: usize,
    player_count: usize,
    loaded: bool,
    interactive: bool,
    filename: String,
    smallestship: usize,
    largestship: usize,
    boards: Vec<PlayBoard>,
}

impl View for GameData {
    type V = GameView;

    closed spec fn view(&self) -> GameView {
        GameView {
            rows: self.rows,
            cols: self.cols,
            player_count: self.player_count,
            loaded: self.loaded,
            interactive: self.interactive,
            filename: self.filename@,
            smallest: self.smallestship,
            largest: self.largestship,
            boards: self.boards@.map_values(|b: PlayBoard| b@),
        }
    }
}

/// A new game: a 10 by 10 grid, one player, ship sizes 2 to 5, neither
/// loaded nor interactive, an empty file name and no boards.
pub fn create_game() -> (r: GameData)
    ensures
        r@ == (GameView {
            rows: 10,
            cols: 10,
            player_count: 1,
            loaded: false,
            interactive: false,
            filename: Seq::empty(),
            smallest: 2,
            largest: 5,
            boards: Seq::empty(),
        }),
        r@.wf(),
{
    let r = GameData {
        rows: 10,
        cols: 10,
        player_count: 1,
        loaded: false,
        interactive: false,
        filename: String::new(),
        smallestship: 2,
        largestship: 5,
        boards: Vec::new(),
    };
    assert(r@.boards =~= Seq::empty());
    assert(r@.filename =~= Seq::empty());
    r
}

impl GameData {
    /// Sets the interactive flag.
    pub fn set_interactive(&mut self, state: bool)
        ensures
            final(self)@ == (GameView { interactive: state, ..old(self)@ }),
    {
        self.interactive = state;
    }

    /// The interactive flag.
    pub fn get_interactive(&self) -> (r: bool)
        ensures
            r == self@.interactive,
    {
        self.interactive
    }

    /// The loaded flag.
    pub fn get_loaded(&self) -> (r: bool)
        ensures
            r == self@.loaded,
    {
        self.loaded
    }

    /// Sets the loaded flag.
    pub fn set_loaded(&mut self, state: bool)
        ensures
            final(self)@ == (GameView { loaded: state, ..old(self)@ }),
    {
        self.loaded = state;
    }

    /// The source file name.
    pub fn get_filename(&self) -> (r: String)
        ensures
            r@ == self@.filename,
    {
        self.filename.clone()
    }

    /// Replaces the source file name.
    pub fn set_filename(&mut self, name: String)
        ensures
            final(self)@ == (GameView { filename: name@, ..old(self)@ }),
    {
        self.filename = name;
    }

    /// The smallest and the largest ship size.
    pub fn get_shipsizes(&self) -> (r: (usize, usize))
        ensures
            r == (self@.smallest, self@.largest),
    {
        (self.smallestship, self.largestship)
    }

    /// Sets the smallest ship size to `small` and the largest to `large`, or
    /// to `small + 5` where `large` is absent. Fails with `InvalidShipSize`,
    /// changing nothing, unless both are above 1 and `small` is at most the
    /// largest.
    pub fn set_shipsizes(&mut self, small: usize, large: Option<usize>) -> (r: Result<(), ConfigError>)
        requires
            large is None ==> small + 5 <= usize::MAX,
        ensures
            r is Ok <==> valid_ship_sizes(small as int, resolved_largest(small, large)),
            r is Ok ==> final(self)@ == (GameView {
                smallest: small,
                largest: resolved_largest(small, large) as usize,
                ..old(self)@
            }),
            r is Err ==> r == Err::<(), ConfigError>(ConfigError::InvalidShipSize) && final(self)@ == old(self)@,
    {
        let large_val = match large {
            Some(l) => l,
            None => small + 5,
        };
        if small <= 1 || large_val <= 1 || small > large_val {
            return Err(ConfigError::InvalidShipSize);
        }
        self.smallestship = small;
        self.largestship = large_val;
        Ok(())
    }

    /// The grid's number of rows and of columns.
    pub fn get_row_col(&self) -> (r: (usize, usize))
        ensures
            r == (self@.rows, self@.cols),
    {
        (self.rows, self.cols)
    }

    /// Replaces both grid dimensions.
    pub fn set_row_col(&mut self, row: usize, col: usize)
        ensures
            final(self)@ == (GameView { rows: row, cols: col, ..old(self)@ }),
    {
        self.rows = row;
        self.cols = col;
    }

    /// Replaces the number of rows where `row_col` holds, else the number of
    /// columns.
    pub fn set_row_or_col(&mut self, num: usize, row_col: bool)
        ensures
            row_col ==> final(self)@ == (GameView { rows: num, ..old(self)@ }),
            !row_col ==> final(self)@ == (GameView { cols: num, ..old(self)@ }),
    {
        if row_col {
            self.rows = num;
        } else {
            self.cols = num;
        }
    }

    /// The configured number of players.
    pub fn get_playercount(&self) -> (r: usize)
        ensures
            r == self@.player_count,
    {
        self.player_count
    }

    /// Replaces the number of players.
    pub fn set_playercount(&mut self, num: usize)
        ensures
            final(self)@ == (GameView { player_count: num, ..old(self)@ }),
    {
        self.player_count = num;
    }

    /// Raises the player count by one.
    pub fn increment_playercount(&mut self)
        requires
            old(self)@.player_count < usize::MAX,
        ensures
            final(self)@ == (GameView { player_count: (old(self)@.player_count + 1) as usize, ..old(self)@ }),
    {
        self.player_count = self.player_count + 1;
    }

    /// Lowers the player count by one; fails with `Underflow`, changing
    /// nothing, where it is already 0.
    pub fn decrement_playercount(&mut self) -> (r: Result<(), ConfigError>)
        ensures
            old(self)@.player_count == 0 ==> r == Err::<(), ConfigError>(ConfigError::Underflow)
                && final(self)@ == old(self)@,
            old(self)@.player_count > 0 ==> r is Ok && final(self)@ == (GameView {
                player_count: (old(self)@.player_count - 1) as usize,
                ..old(self)@
            }),
    {
        if self.player_count == 0 {
            return Err(ConfigError::Underflow);
        }
        self.player_count = self.player_count - 1;
        Ok(())
    }

    /// The number of boards added.
    pub fn get_boards_len(&self) -> (r: usize)
        ensures
            r == self@.boards.len(),
    {
        self.boards.len()
    }

    /// Appends `board` as the board of the next player.
    pub fn boards_add(&mut self, board: PlayBoard)
        ensures
            final(self)@ == (GameView { boards: old(self)@.boards.push(board@), ..old(self)@ }),
    {
        self.boards.push(board);
        proof {
            assert(self@.boards =~= old(self)@.boards.push(board@));
        }
    }

    /// Removes and returns the most recently added board; `None` where there
    /// is none.
    pub fn boards_pop_last(&mut self) -> (r: Option<PlayBoard>)
        ensures
            board_view_of(r) == last_board(old(self)@.boards),
            r matches Some(b) ==> b@.wf(),
            final(self)@ == (GameView { boards: without_last(old(self)@.boards), ..old(self)@ }),
    {
        let r = self.boards.pop();
        proof {
            if let Some(b) = &r {
                use_type_invariant(b);
            }
            assert(self@.boards =~= without_last(old(self)@.boards));
        }
        r
    }

    /// A copy of the most recently added board; `None` where there is none.
    pub fn boards_get_last(&self) -> (r: Option<PlayBoard>)
        ensures
            board_view_of(r) == last_board(self@.boards),
            r matches Some(b) ==> b@.wf(),
    {
        let n = self.boards.len();
        if n == 0 {
            None
        } else {
            let b = self.boards[n - 1].clone();
            proof {
                use_type_invariant(&b);
            }
            Some(b)
        }
    }

    /// A copy of the board of player `playernum`; `None` where there is no
    /// such board.
    pub fn boards_get_player(&self, playernum: usize) -> (r: Option<PlayBoard>)
        ensures
            board_view_of(r) == board_at(self@.boards, playernum as int),
            r matches Some(b) ==> b@.wf(),
    {
        if playernum < self.boards.len() {
            let b = self.boards[playernum].clone();
            proof {
                use_type_invariant(&b);
            }
            Some(b)
        } else {
            None
        }
    }
}

/// Removing the last board right after adding `b` gives `b` back and leaves
/// the boards as they were before.
pub proof fn lemma_pop_after_add(boards: Seq<BoardView>, b: BoardView)
    ensures
        last_board(boards.push(b)) == Some(b),
        without_last(boards.push(b)) == boards,
{
    assert(boards.push(b).drop_last() =~= boards);
}

} // verus!
