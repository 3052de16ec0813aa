//! The field of view: which cells let light through, and which are in view.
//!
//! Which cells are in view from a point is computed elsewhere, from the
//! transparency that this map holds, and handed to [`FovMap::apply_view`].

use vstd::prelude::*;
use crate::tile::{in_bounds, TileGrid, MAP_HEIGHT, MAP_WIDTH};

verus! {

/// Whether walls at the edge of the view are lit.
pub const FOV_LIGHT_WALLS: bool = true;

/// How far the player sees.
pub const TORCH_RADIUS: i32 = 10;

/// What the field of view knows of one cell.
#[derive(Clone, Copy, Debug, PartialEq, Eq, Structural)]
pub struct FovCell {
    pub transparent: bool,
    pub walkable: bool,
    pub in_fov: bool,
}

/// A grid of `width` columns and `height` rows of cells.
#[derive(Debug, PartialEq, Eq)]
pub struct FovMap {
    pub width: i32,
    pub height: i32,
    pub cells: Vec<Vec<FovCell>>,
}

/// What is to be done about the view before a turn is drawn.
#[derive(Clone, Copy, Debug, PartialEq, Eq, Structural)]
pub enum FovRequest {
    /// The player stands where it stood: the view stays as it is.
    Keep,
    /// The view is to be computed anew from the given point.
    Compute { origin_x: i32, origin_y: i32, radius: i32, light_walls: bool },
}

/// The request that a move of the player from `previous` to `current`
/// gives rise to.
pub open spec fn spec_fov_request(previous: (i32, i32), current: (i32, i32)) -> FovRequest {
    if previous == current {
        FovRequest::Keep
    } else {
        FovRequest::Compute {
            origin_x: current.0,
            origin_y: current.1,
            radius: TORCH_RADIUS,
            light_walls: FOV_LIGHT_WALLS,
        }
    }
}

/// Decides whether the view has to be computed anew: only if the player
/// does not stand where it stood when the view was last drawn.
#[verifier::when_used_as_spec(spec_fov_request)]
pub fn fov_request(previous: (i32, i32), current: (i32, i32)) -> (request: FovRequest)
    ensures
        request == spec_fov_request(previous, current),
{
    if previous.0 == current.0 && previous.1 == current.1 {
        FovRequest::Keep
    } else {
        FovRequest::Compute {
            origin_x: current.0,
            origin_y: current.1,
            radius: TORCH_RADIUS,
            light_walls: FOV_LIGHT_WALLS,
        }
    }
}

impl FovMap {
    /// The grid has `width` columns of `height` cells each.
    pub open spec fn wf(&self) -> bool {
        &&& self.width > 0
        &&& self.height > 0
        &&& self.cells.len() == self.width
        &&& forall|x: int| 0 <= x < self.width ==> (#[trigger] self.cells[x]).len() == self.height
    }

    /// Whether `(x, y)` names a cell of the grid.
    pub open spec fn contains(&self, x: int, y: int) -> bool {
        0 <= x < self.width && 0 <= y < self.height
    }

    /// The cell at `(x, y)`.
    pub open spec fn cell(&self, x: int, y: int) -> FovCell {
        self.cells[x][y]
    }

    /// Whether `(x, y)` is in view. No cell outside the grid is.
    pub open spec fn lit(&self, x: int, y: int) -> bool {
        self.contains(x, y) && self.cell(x, y).in_fov
    }

    /// The two grids have the same size.
    pub open spec fn same_size(&self, other: &FovMap) -> bool {
        self.width == other.width && self.height == other.height
    }

    /// `lit` has the size of the grid.
    pub open spec fn fits(&self, lit: &Vec<Vec<bool>>) -> bool {
        &&& lit.len() == self.width
        &&& forall|x: int| 0 <= x < self.width ==> (#[trigger] lit[x]).len() == self.height
    }

    /// The grid after `request` was served with `lit`: unchanged if the view
    /// is kept, else with `lit` as what is in view.
    pub open spec fn viewed(&self, request: FovRequest, lit: &Vec<Vec<bool>>, after: &FovMap) -> bool {
        &&& after.wf()
        &&& after.same_size(self)
        &&& forall|x: int, y: int|
            self.contains(x, y) ==> #[trigger] after.cell(x, y) == match request {
                FovRequest::Keep => self.cell(x, y),
                FovRequest::Compute { .. } => FovCell { in_fov: lit[x][y], ..self.cell(x, y) },
            }
    }

    /// `self` is `before` with the tiles of `map` copied in: a cell lets
    /// light through where the tile does not block sight, and can be walked
    /// on where the tile is passable. What is in view is as before.
    pub open spec fn mirrors(&self, before: &FovMap, map: &TileGrid) -> bool {
        &&& self.wf()
        &&& self.same_size(before)
        &&& forall|x: int, y: int|
            before.contains(x, y) ==> #[trigger] self.cell(x, y) == if in_bounds(x, y) {
                FovCell {
                    transparent: !map.at(x, y).block_sight,
                    walkable: map.at(x, y).passable,
                    in_fov: before.cell(x, y).in_fov,
                }
            } else {
                before.cell(x, y)
            }
    }

    /// A grid in which no cell lets light through, can be walked on or is
    /// in view.
    pub fn new(width: i32, height: i32) -> (fov: FovMap)
        requires
            width > 0,
            height > 0,
        ensures
            fov.wf(),
            fov.width == width,
            fov.height == height,
            forall|x: int, y: int|
                fov.contains(x, y) ==> #[trigger] fov.cell(x, y) == (FovCell {
                    transparent: false,
                    walkable: false,
                    in_fov: false,
                }),
    {
        let blank = FovCell { transparent: false, walkable: false, in_fov: false };
        let mut cells: Vec<Vec<FovCell>> = Vec::new();
        let mut x: i32 = 0;
        while x < width
            invariant
                0 <= x <= width,
                height > 0,
                cells.len() == x,
                forall|i: int| 0 <= i < x ==> (#[trigger] cells[i]).len() == height,
                forall|i: int, j: int| 0 <= i < x && 0 <= j < height ==> #[trigger] cells[i][j] == blank,
            decreases width - x,
        {
            let mut column: Vec<FovCell> = Vec::new();
            let mut y: i32 = 0;
            while y < height
                invariant
                    0 <= y <= height,
                    column.len() == y,
                    forall|j: int| 0 <= j < y ==> #[trigger] column[j] == blank,
                decreases height - y,
            {
                column.push(blank);
                y = y + 1;
            }
            cells.push(column);
            x = x + 1;
        }
        FovMap { width, height, cells }
    }

    /// Width and height of the grid.
    pub fn size(&self) -> (s: (i32, i32))
        ensures
            s == (self.width, self.height),
    {
        (self.width, self.height)
    }

    /// Says whether the cell at `(x, y)` lets light through and whether it
    /// can be walked on.
    pub fn set(&mut self, x: i32, y: i32, transparent: bool, walkable: bool)
        requires
            old(self).wf(),
            old(self).contains(x as int, y as int),
        ensures
            final(self).wf(),
            final(self).same_size(old(self)),
            final(self).cell(x as int, y as int) == (FovCell {
                transparent,
                walkable,
                ..old(self).cell(x as int, y as int)
            }),
            forall|i: int, j: int|
                old(self).contains(i, j) && !(i == x && j == y) ==> #[trigger] final(self).cell(i, j)
                    == old(self).cell(i, j),
    {
        let cell = self.cells[x as usize][y as usize];
        self.cells[x as usize][y as usize] = FovCell {
            transparent,
            walkable,
            in_fov: cell.in_fov,
        };
    }

    /// Says whether the cell at `(x, y)` is in view.
    pub fn set_in_fov(&mut self, x: i32, y: i32, in_fov: bool)
        requires
            old(self).wf(),
            old(self).contains(x as int, y as int),
        ensures
            final(self).wf(),
            final(self).same_size(old(self)),
            final(self).cell(x as int, y as int) == (FovCell {
                in_fov,
                ..old(self).cell(x as int, y as int)
            }),
            forall|i: int, j: int|
                old(self).contains(i, j) && !(i == x && j == y) ==> #[trigger] final(self).cell(i, j)
                    == old(self).cell(i, j),
    {
        let cell = self.cells[x as usize][y as usize];
        self.cells[x as usize][y as usize] = FovCell {
            transparent: cell.transparent,
            walkable: cell.walkable,
            in_fov,
        };
    }

    /// Whether `(x, y)` is in view.
    pub fn is_in_fov(&self, x: i32, y: i32) -> (b: bool)
        requires
            self.wf(),
        ensures
            b == self.lit(x as int, y as int),
    {
        if 0 <= x && x < self.width && 0 <= y && y < self.height {
            self.cells[x as usize][y as usize].in_fov
        } else {
            false
        }
    }

    /// Whether the cell at `(x, y)` lets light through.
    pub fn is_transparent(&self, x: i32, y: i32) -> (b: bool)
        requires
            self.wf(),
            self.contains(x as int, y as int),
        ensures
            b == self.cell(x as int, y as int).transparent,
    {
        self.cells[x as usize][y as usize].transparent
    }

    /// Whether the cell at `(x, y)` can be walked on.
    pub fn is_walkable(&self, x: i32, y: i32) -> (b: bool)
        requires
            self.wf(),
            self.contains(x as int, y as int),
        ensures
            b == self.cell(x as int, y as int).walkable,
    {
        self.cells[x as usize][y as usize].walkable
    }

    /// Serves `request`. If the view is kept, nothing changes, whatever
    /// `lit` holds. Else `lit[x][y]` says for each cell whether it is now in
    /// view.
    pub fn apply_view(&mut self, request: FovRequest, lit: &Vec<Vec<bool>>)
        requires
            old(self).wf(),
            request is Compute ==> old(self).fits(lit),
        ensures
            old(self).viewed(request, lit, final(self)),
    {
        match request {
            FovRequest::Keep => {},
            FovRequest::Compute { .. } => {
                let mut x: usize = 0;
                while x < self.width as usize
                    invariant
                        0 <= x <= self.width,
                        self.wf(),
                        self.same_size(old(self)),
                        old(self).fits(lit),
                        forall|i: int, j: int|
                            old(self).contains(i, j) ==> #[trigger] self.cell(i, j) == if i < x {
                                FovCell { in_fov: lit[i][j], ..old(self).cell(i, j) }
                            } else {
                                old(self).cell(i, j)
                            },
                    decreases self.width - x,
                {
                    let mut y: usize = 0;
                    while y < self.height as usize
                        invariant
                            0 <= x < self.width,
                            0 <= y <= self.height,
                            self.wf(),
                            self.same_size(old(self)),
                            old(self).fits(lit),
                            forall|i: int, j: int|
                                old(self).contains(i, j) ==> #[trigger] self.cell(i, j) == if i < x
                                    || (i == x && j < y) {
                                    FovCell { in_fov: lit[i][j], ..old(self).cell(i, j) }
                                } else {
                                    old(self).cell(i, j)
                                },
                        decreases self.height - y,
                    {
                        self.set_in_fov(x as i32, y as i32, lit[x][y]);
                        y = y + 1;
                    }
                    x = x + 1;
                }
            },
        }
    }
}

/// As long as the player stands where it stood, the view is kept: whatever
/// is handed in as newly computed, and whoever else has moved, the same
/// cells are in view after the turn as before it.
pub proof fn lemma_view_kept_while_standing(
    fov: FovMap,
    position: (i32, i32),
    lit: Vec<Vec<bool>>,
    after: FovMap,
)
    requires
        fov.wf(),
        fov.viewed(fov_request(position, position), &lit, &after),
    ensures
        fov_request(position, position) == FovRequest::Keep,
        forall|x: int, y: int| #[trigger] after.lit(x, y) == fov.lit(x, y),
{
    assert forall|x: int, y: int| #[trigger] after.lit(x, y) == fov.lit(x, y) by {
        if fov.contains(x, y) {
            assert(after.cell(x, y) == fov.cell(x, y));
        }
    }
}

/// To serve the same request with the same cells twice is to serve it
/// once.
pub proof fn lemma_view_idempotent(
    fov: FovMap,
    request: FovRequest,
    lit: Vec<Vec<bool>>,
    once: FovMap,
    twice: FovMap,
)
    requires
        fov.wf(),
        fov.viewed(request, &lit, &once),
        once.viewed(request, &lit, &twice),
    ensures
        twice.same_size(&once),
        forall|x: int, y: int| fov.contains(x, y) ==> #[trigger] twice.cell(x, y) == once.cell(x, y),
{
    assert forall|x: int, y: int| fov.contains(x, y) implies #[trigger] twice.cell(x, y)
        == once.cell(x, y) by {
        assert(once.contains(x, y));
        assert(once.cell(x, y) == match request {
            FovRequest::Keep => fov.cell(x, y),
            FovRequest::Compute { .. } => FovCell { in_fov: lit[x][y], ..fov.cell(x, y) },
        });
    }
}

/// Copies from `map` into `fov` which cells let light through and which can
/// be walked on. What is in view stays as it is.
pub fn generate_fov_map(fov: &mut FovMap, map: &TileGrid)
    requires
        old(fov).wf(),
        map.wf(),
        old(fov).width >= MAP_WIDTH,
        old(fov).height >= MAP_HEIGHT,
    ensures
        final(fov).mirrors(old(fov), map),
{
    let mut y: i32 = 0;
    while y < MAP_HEIGHT
        invariant
            0 <= y <= MAP_HEIGHT,
            fov.wf(),
            map.wf(),
            fov.same_size(old(fov)),
            fov.width >= MAP_WIDTH,
            fov.height >= MAP_HEIGHT,
            forall|i: int, j: int|
                old(fov).contains(i, j) ==> #[trigger] fov.cell(i, j) == if in_bounds(i, j) && j < y {
                    FovCell {
                        transparent: !map.at(i, j).block_sight,
                        walkable: map.at(i, j).passable,
                        in_fov: old(fov).cell(i, j).in_fov,
                    }
                } else {
                    old(fov).cell(i, j)
                },
        decreases MAP_HEIGHT - y,
    {
        let mut x: i32 = 0;
        while x < MAP_WIDTH
            invariant
                0 <= y < MAP_HEIGHT,
                0 <= x <= MAP_WIDTH,
                fov.wf(),
                map.wf(),
                fov.same_size(old(fov)),
                fov.width >= MAP_WIDTH,
                fov.height >= MAP_HEIGHT,
                forall|i: int, j: int|
                    old(fov).contains(i, j) ==> #[trigger] fov.cell(i, j) == if in_bounds(i, j) && (j
                        < y || (j == y && i < x)) {
                        FovCell {
                            transparent: !map.at(i, j).block_sight,
                            walkable: map.at(i, j).passable,
                            in_fov: old(fov).cell(i, j).in_fov,
                        }
                    } else {
                        old(fov).cell(i, j)
                    },
            decreases MAP_WIDTH - x,
        {
            let tile = map.get(x, y);
            let transparent = !tile.get_is_block_sight();
            let walkable = tile.get_is_passable();
            fov.set(x, y, transparent, walkable);
            x = x + 1;
        }
        y = y + 1;
    }
}

} // verus!
