//! Tiles and the grid of a dungeon level.

use vstd::prelude::*;

verus! {

/// Number of columns of a level.
pub const MAP_WIDTH: i32 = 80;

/// Number of rows of a level.
pub const MAP_HEIGHT: i32 = 43;

/// One cell of a level.
#[derive(Clone, Copy, Debug, PartialEq, Eq, Structural)]
pub struct Tile {
    pub passable: bool,
    pub block_sight: bool,
    pub explored: bool,
}

impl Tile {
    /// A floor tile: passable, transparent, not yet seen.
    pub open spec fn empty_spec() -> Tile {
        Tile { passable: true, block_sight: false, explored: false }
    }

    /// A wall tile: impassable, opaque, not yet seen.
    pub open spec fn wall_spec() -> Tile {
        Tile { passable: false, block_sight: true, explored: false }
    }

    #[verifier::when_used_as_spec(empty_spec)]
    pub fn empty() -> (t: Tile)
        ensures
            t == Tile::empty_spec(),
    {
        Tile { passable: true, block_sight: false, explored: false }
    }

    #[verifier::when_used_as_spec(wall_spec)]
    pub fn wall() -> (t: Tile)
        ensures
            t == Tile::wall_spec(),
    {
        Tile { passable: false, block_sight: true, explored: false }
    }

    pub fn get_is_block_sight(&self) -> (b: bool)
        ensures
            b == self.block_sight,
    {
        self.block_sight
    }

    pub fn get_is_passable(&self) -> (b: bool)
        ensures
            b == self.passable,
    {
        self.passable
    }

    pub fn get_is_explored(&self) -> (b: bool)
        ensures
            b == self.explored,
    {
        self.explored
    }

    /// Marks the tile as seen. Nothing clears the mark again.
    pub fn explore(&mut self)
        ensures
            *final(self) == (Tile { explored: true, ..*old(self) }),
    {
        self.explored = true;
    }
}

/// Whether `(x, y)` names a cell of a level.
pub open spec fn in_bounds(x: int, y: int) -> bool {
    0 <= x < MAP_WIDTH && 0 <= y < MAP_HEIGHT
}

/// What is explored stays explored, from one turn to any later one.
pub proof fn lemma_explored_for_good(first: TileGrid, second: TileGrid, third: TileGrid)
    requires
        second.explored_since(&first),
        third.explored_since(&second),
    ensures
        third.explored_since(&first),
{
    assert forall|x: int, y: int| in_bounds(x, y) implies {
        &&& (#[trigger] third.at(x, y)).passable == first.at(x, y).passable
        &&& third.at(x, y).block_sight == first.at(x, y).block_sight
        &&& first.at(x, y).explored ==> third.at(x, y).explored
    } by {
        assert(second.at(x, y).passable == first.at(x, y).passable);
    }
}

/// The tiles of one dungeon level, addressed as `tiles[x][y]`.
#[derive(Debug, PartialEq, Eq)]
pub struct TileGrid {
    pub tiles: Vec<Vec<Tile>>,
}

impl View for TileGrid {
    type V = Seq<Seq<Tile>>;

    open spec fn view(&self) -> Seq<Seq<Tile>> {
        Seq::new(self.tiles.len() as nat, |x: int| self.tiles[x]@)
    }
}

impl Clone for TileGrid {
    fn clone(&self) -> (copy: Self)
        ensures
            copy@ == self@,
            self.wf() ==> copy.wf(),
    {
        let mut tiles: Vec<Vec<Tile>> = Vec::new();
        let mut x: usize = 0;
        while x < self.tiles.len()
            invariant
                0 <= x <= self.tiles.len(),
                tiles.len() == x,
                forall|i: int| 0 <= i < x ==> (#[trigger] tiles[i])@ == self.tiles[i]@,
            decreases self.tiles.len() - x,
        {
            let mut column: Vec<Tile> = Vec::new();
            let mut y: usize = 0;
            while y < self.tiles[x].len()
                invariant
                    0 <= x < self.tiles.len(),
                    0 <= y <= self.tiles[x as int].len(),
                    column.len() == y,
                    forall|j: int| 0 <= j < y ==> #[trigger] column[j] == self.tiles[x as int][j],
                decreases self.tiles[x as int].len() - y,
            {
                column.push(self.tiles[x][y]);
                y = y + 1;
            }
            assert(column@ =~= self.tiles[x as int]@);
            tiles.push(column);
            x = x + 1;
        }
        let copy = TileGrid { tiles };
        assert(copy@ =~= self@);
        assert(self.wf() ==> copy.wf()) by {
            if self.wf() {
                assert forall|i: int| 0 <= i < MAP_WIDTH implies (#[trigger] copy.tiles[i]).len()
                    == MAP_HEIGHT by {
                    assert(copy.tiles[i]@ == self.tiles[i]@);
                }
            }
        }
        copy
    }
}

impl TileGrid {
    /// The grid has `MAP_WIDTH` columns of `MAP_HEIGHT` tiles each.
    pub open spec fn wf(&self) -> bool {
        &&& self.tiles.len() == MAP_WIDTH
        &&& forall|x: int| 0 <= x < MAP_WIDTH ==> (#[trigger] self.tiles[x]).len() == MAP_HEIGHT
    }

    /// The tile at `(x, y)`.
    pub open spec fn at(&self, x: int, y: int) -> Tile {
        self.tiles[x][y]
    }

    /// Every tile of `self` that was explored in `before` is still explored,
    /// and nothing else about any tile differs.
    pub open spec fn explored_since(&self, before: &TileGrid) -> bool {
        forall|x: int, y: int|
            in_bounds(x, y) ==> {
                &&& (#[trigger] self.at(x, y)).passable == before.at(x, y).passable
                &&& self.at(x, y).block_sight == before.at(x, y).block_sight
                &&& before.at(x, y).explored ==> self.at(x, y).explored
            }
    }

    /// A level of solid rock.
    pub fn new() -> (grid: TileGrid)
        ensures
            grid.wf(),
            forall|x: int, y: int| in_bounds(x, y) ==> #[trigger] grid.at(x, y) == Tile::wall(),
    {
        let mut tiles: Vec<Vec<Tile>> = Vec::new();
        let mut x: i32 = 0;
        while x < MAP_WIDTH
            invariant
                0 <= x <= MAP_WIDTH,
                tiles.len() == x,
                forall|i: int| 0 <= i < x ==> (#[trigger] tiles[i]).len() == MAP_HEIGHT,
                forall|i: int, j: int|
                    0 <= i < x && 0 <= j < MAP_HEIGHT ==> #[trigger] tiles[i][j] == Tile::wall(),
            decreases MAP_WIDTH - x,
        {
            let mut column: Vec<Tile> = Vec::new();
            let mut y: i32 = 0;
            while y < MAP_HEIGHT
                invariant
                    0 <= y <= MAP_HEIGHT,
                    column.len() == y,
                    forall|j: int| 0 <= j < y ==> #[trigger] column[j] == Tile::wall(),
                decreases MAP_HEIGHT - y,
            {
                column.push(Tile::wall());
                y = y + 1;
            }
            tiles.push(column);
            x = x + 1;
        }
        TileGrid { tiles }
    }

    /// Whether the grid has `MAP_WIDTH` columns of `MAP_HEIGHT` tiles each.
    pub fn is_well_formed(&self) -> (b: bool)
        ensures
            b == self.wf(),
    {
        if self.tiles.len() != MAP_WIDTH as usize {
            return false;
        }
        let mut x: usize = 0;
        while x < self.tiles.len()
            invariant
                0 <= x <= self.tiles.len(),
                self.tiles.len() == MAP_WIDTH,
                forall|i: int| 0 <= i < x ==> (#[trigger] self.tiles[i]).len() == MAP_HEIGHT,
            decreases self.tiles.len() - x,
        {
            if self.tiles[x].len() != MAP_HEIGHT as usize {
                return false;
            }
            x = x + 1;
        }
        true
    }

    /// Reads the tile at `(x, y)`.
    pub fn get(&self, x: i32, y: i32) -> (t: Tile)
        requires
            self.wf(),
            in_bounds(x as int, y as int),
        ensures
            t == self.at(x as int, y as int),
    {
        self.tiles[x as usize][y as usize]
    }

    /// Replaces the tile at `(x, y)`.
    pub fn set(&mut self, x: i32, y: i32, tile: Tile)
        requires
            old(self).wf(),
            in_bounds(x as int, y as int),
        ensures
            final(self).wf(),
            final(self).at(x as int, y as int) == tile,
            forall|i: int, j: int|
                in_bounds(i, j) && !(i == x && j == y) ==> #[trigger] final(self).at(i, j)
                    == old(self).at(i, j),
    {
        self.tiles[x as usize][y as usize] = tile;
    }
}

} // verus!
