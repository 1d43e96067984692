//! The coast map, its quadrants and the drone.

use vstd::prelude::*;

verus! {

/// Side of a square quadrant, in map cells (one cell is one metre).
pub const QUADRANT_SIZE: usize = 10;

/// Cruising speed of a drone, in map cells per second.
pub const SPEED: usize = 10;

/// A quadrant counts as land when more than one twentieth of its cells are land.
pub const LAND_RATIO_DENOMINATOR: usize = 20;

/// What one cell of the coast map holds.
#[derive(Debug, Clone, Copy, PartialEq, Eq, Structural)]
pub enum Tile {
    Water,
    Land,
    Base,
}

/// A position on the map, in cells along each axis.
#[derive(Debug, Clone, Copy, PartialEq, Eq, Structural)]
pub struct Point {
    pub x: usize,
    pub y: usize,
}

/// A rectangular grid of tiles, indexed first by column `x`, then by row `y`.
pub struct CoastMap {
    tiles: Vec<Vec<Tile>>,
}

/// A grid has at least one column, and all its columns have the same length.
pub open spec fn is_grid(g: Seq<Seq<Tile>>) -> bool {
    &&& g.len() > 0
    &&& forall|x: int| 0 <= x < g.len() ==> #[trigger] g[x].len() == g[0].len()
}

/// Width of a grid: its number of columns.
pub open spec fn grid_width(g: Seq<Seq<Tile>>) -> nat {
    g.len()
}

/// Height of a grid: the length of its columns.
pub open spec fn grid_height(g: Seq<Seq<Tile>>) -> nat {
    g[0].len()
}

impl View for CoastMap {
    type V = Seq<Seq<Tile>>;

    closed spec fn view(&self) -> Seq<Seq<Tile>> {
        Seq::new(self.tiles@.len(), |x: int| self.tiles@[x]@)
    }
}

impl CoastMap {
    #[verifier::type_invariant]
    spec fn well_formed(self) -> bool {
        is_grid(self@)
    }
}

/// The tile that a generated coast map holds at `(x, y)`: the base at
/// `(1, height - 2)`, else land where the land mask says so, else water.
pub open spec fn coast_tile(land: Seq<Seq<bool>>, height: nat, x: int, y: int) -> Tile {
    if x == 1 && y == height - 2 {
        Tile::Base
    } else if land[x][y] {
        Tile::Land
    } else {
        Tile::Water
    }
}

/// Builds the coast map of `width` columns and `height` rows from a land mask
/// (`land[x][y]` tells whether cell `(x, y)` is above the coast line), and
/// places the base at `(1, height - 2)`.
pub fn generate_coast_map(width: usize, height: usize, land: &Vec<Vec<bool>>) -> (map: CoastMap)
    requires
        width >= 2,
        height >= 2,
        land@.len() == width,
        forall|x: int| 0 <= x < width ==> #[trigger] land@[x]@.len() == height,
    ensures
        map@.len() == width,
        forall|x: int| 0 <= x < width ==> #[trigger] map@[x].len() == height,
        forall|x: int, y: int|
            0 <= x < width && 0 <= y < height ==> #[trigger] map@[x][y] == coast_tile(
                Seq::new(width as nat, |i: int| land@[i]@),
                height as nat,
                x,
                y,
            ),
        map@[1][height - 2] == Tile::Base,
        forall|x: int, y: int|
            0 <= x < width && 0 <= y < height && !(x == 1 && y == height - 2) ==> {
                &&& (#[trigger] map@[x][y] == Tile::Land <==> land@[x]@[y])
                &&& (map@[x][y] == Tile::Land || map@[x][y] == Tile::Water)
            },
{
    let ghost mask = Seq::new(width as nat, |i: int| land@[i]@);
    let mut tiles: Vec<Vec<Tile>> = Vec::new();
    let mut x: usize = 0;
    while x < width
        invariant
            x <= width,
            height >= 2,
            land@.len() == width,
            forall|i: int| 0 <= i < width ==> #[trigger] land@[i]@.len() == height,
            mask == Seq::new(width as nat, |i: int| land@[i]@),
            tiles@.len() == x,
            forall|i: int| 0 <= i < x ==> #[trigger] tiles@[i]@.len() == height,
            forall|i: int, j: int|
                0 <= i < x && 0 <= j < height ==> #[trigger] tiles@[i]@[j] == coast_tile(
                    mask,
                    height as nat,
                    i,
                    j,
                ),
        decreases width - x,
    {
        let mut column: Vec<Tile> = Vec::new();
        let mut y: usize = 0;
        while y < height
            invariant
                x < width,
                y <= height,
                height >= 2,
                land@.len() == width,
                land@[x as int]@.len() == height,
                mask == Seq::new(width as nat, |i: int| land@[i]@),
                column@.len() == y,
                forall|j: int| 0 <= j < y ==> #[trigger] column@[j] == coast_tile(
                    mask,
                    height as nat,
                    x as int,
                    j,
                ),
            decreases height - y,
        {
            let tile = if x == 1 && y == height - 2 {
                Tile::Base
            } else if land[x][y] {
                Tile::Land
            } else {
                Tile::Water
            };
            column.push(tile);
            y += 1;
        }
        tiles.push(column);
        x += 1;
    }
    CoastMap { tiles }
}

/// The tile at column `x`, row `y`.
pub fn get_tile_type(map: &CoastMap, x: usize, y: usize) -> (tile: Tile)
    requires
        x < map@.len(),
        y < map@[x as int].len(),
    ensures
        tile == map@[x as int][y as int],
{
    map.tiles[x][y]
}

/// Whether a quadrant has been looked at, and what was found there.
#[derive(Debug, Clone, Copy, PartialEq, Eq, Structural)]
pub enum QuadState {
    NotFound,
    Found(Tile),
    Done,
}

/// A square block of `QUADRANT_SIZE` by `QUADRANT_SIZE` cells, located by its centre.
#[derive(Debug, Clone, Copy, PartialEq, Eq, Structural)]
pub struct Quadrant {
    pub pos: Point,
    pub kind: Tile,
    pub quad_state: QuadState,
}

/// Number of land cells among the `n` cells `column[y0]`, ..., `column[y0 + n - 1]`.
pub open spec fn column_land(column: Seq<Tile>, y0: int, n: nat) -> nat
    decreases n,
{
    if n == 0 {
        0
    } else {
        column_land(column, y0, (n - 1) as nat) + (if column[y0 + n - 1] == Tile::Land {
            1nat
        } else {
            0nat
        })
    }
}

/// Number of land cells in the block of `cols` columns from `x0` and `rows` rows from `y0`.
pub open spec fn block_land(g: Seq<Seq<Tile>>, x0: int, y0: int, cols: nat, rows: nat) -> nat
    decreases cols,
{
    if cols == 0 {
        0
    } else {
        block_land(g, x0, y0, (cols - 1) as nat, rows) + column_land(g[x0 + cols - 1], y0, rows)
    }
}

/// Number of land cells in quadrant `(qx, qy)`.
pub open spec fn quadrant_land(g: Seq<Seq<Tile>>, qx: int, qy: int) -> nat {
    block_land(
        g,
        qx * QUADRANT_SIZE,
        qy * QUADRANT_SIZE,
        QUADRANT_SIZE as nat,
        QUADRANT_SIZE as nat,
    )
}

/// A quadrant is land when its land cells make more than a twentieth of its cells
/// (base cells do not count as land), and water otherwise.
pub open spec fn quadrant_kind(g: Seq<Seq<Tile>>, qx: int, qy: int) -> Tile {
    if quadrant_land(g, qx, qy) * LAND_RATIO_DENOMINATOR > QUADRANT_SIZE * QUADRANT_SIZE {
        Tile::Land
    } else {
        Tile::Water
    }
}

/// Coordinate of the centre of the `q`-th quadrant along an axis.
pub open spec fn quadrant_center(q: int) -> int {
    q * QUADRANT_SIZE + QUADRANT_SIZE / 2
}

/// The quadrant `(qx, qy)` of a grid as the survey reports it.
pub open spec fn surveyed_quadrant(g: Seq<Seq<Tile>>, qx: int, qy: int) -> Quadrant {
    Quadrant {
        pos: Point { x: quadrant_center(qx) as usize, y: quadrant_center(qy) as usize },
        kind: quadrant_kind(g, qx, qy),
        quad_state: QuadState::NotFound,
    }
}

/// The first `n` quadrants of column `qx`.
pub open spec fn quadrant_column(g: Seq<Seq<Tile>>, qx: int, n: nat) -> Seq<Quadrant> {
    Seq::new(n, |qy: int| surveyed_quadrant(g, qx, qy))
}

/// All quadrants of the first `nx` quadrant columns, `ny` quadrants each,
/// column after column.
pub open spec fn survey(g: Seq<Seq<Tile>>, nx: nat, ny: nat) -> Seq<Quadrant>
    decreases nx,
{
    if nx == 0 {
        Seq::empty()
    } else {
        survey(g, (nx - 1) as nat, ny) + quadrant_column(g, nx - 1, ny)
    }
}

/// Number of whole quadrants that fit along a side of `cells` cells.
pub open spec fn quadrant_count(cells: nat) -> nat {
    cells / (QUADRANT_SIZE as nat)
}

/// Land or water, from the share of land cells in quadrant `(qx, qy)`.
fn evaluate_quadrant(map: &CoastMap, qx: usize, qy: usize) -> (kind: Tile)
    requires
        (qx + 1) * QUADRANT_SIZE <= map@.len(),
        (qy + 1) * QUADRANT_SIZE <= map@[0].len(),
    ensures
        kind == quadrant_kind(map@, qx as int, qy as int),
{
    proof {
        use_type_invariant(map);
    }
    let ghost g = map@;
    let width = map.tiles.len();
    let height = map.tiles[0].len();
    assert((qx + 1) * QUADRANT_SIZE <= width && (qy + 1) * QUADRANT_SIZE <= height);
    let mut land_count: usize = 0;
    let mut total: usize = 0;
    let x0 = qx * QUADRANT_SIZE;
    let x1 = (qx + 1) * QUADRANT_SIZE;
    let y0 = qy * QUADRANT_SIZE;
    let y1 = (qy + 1) * QUADRANT_SIZE;
    let mut x = x0;
    while x < x1
        invariant
            g == map@,
            is_grid(g),
            x0 == qx * QUADRANT_SIZE,
            x1 == x0 + QUADRANT_SIZE,
            y0 == qy * QUADRANT_SIZE,
            y1 == y0 + QUADRANT_SIZE,
            x1 <= g.len(),
            y1 <= g[0].len(),
            x0 <= x <= x1,
            land_count == block_land(g, x0 as int, y0 as int, (x - x0) as nat, QUADRANT_SIZE as nat),
            land_count <= total,
            total == (x - x0) * QUADRANT_SIZE,
        decreases x1 - x,
    {
        let mut y = y0;
        while y < y1
            invariant
                g == map@,
                is_grid(g),
                y0 == qy * QUADRANT_SIZE,
                y1 == y0 + QUADRANT_SIZE,
                x0 <= x < x1,
                x1 == x0 + QUADRANT_SIZE,
                x1 <= g.len(),
                y1 <= g[0].len(),
                y0 <= y <= y1,
                land_count == block_land(g, x0 as int, y0 as int, (x - x0) as nat, QUADRANT_SIZE as nat)
                    + column_land(g[x as int], y0 as int, (y - y0) as nat),
                land_count <= total,
                total == (x - x0) * QUADRANT_SIZE + (y - y0),
            decreases y1 - y,
        {
            assert(g[x as int].len() == g[0].len());
            total += 1;
            if map.tiles[x][y] == Tile::Land {
                land_count += 1;
            }
            y += 1;
        }
        x += 1;
    }
    if land_count * LAND_RATIO_DENOMINATOR > total {
        Tile::Land
    } else {
        Tile::Water
    }
}

/// Splits the map into whole quadrants, column after column, and classifies
/// each one. Cells beyond the last whole quadrant are left out.
pub fn reconnaissance(map: &CoastMap) -> (quads: Vec<Quadrant>)
    ensures
        is_grid(map@),
        grid_width(map@) <= usize::MAX,
        grid_height(map@) <= usize::MAX,
        quads@ == survey(
            map@,
            quadrant_count(grid_width(map@)),
            quadrant_count(grid_height(map@)),
        ),
{
    proof {
        use_type_invariant(map);
    }
    let width = map.tiles.len();
    let height = map.tiles[0].len();
    let quad_x = width / QUADRANT_SIZE;
    let quad_y = height / QUADRANT_SIZE;
    let mut quads: Vec<Quadrant> = Vec::new();
    let mut x: usize = 0;
    while x < quad_x
        invariant
            is_grid(map@),
            width == map@.len(),
            height == map@[0].len(),
            quad_x == quadrant_count(width as nat),
            quad_y == quadrant_count(height as nat),
            x <= quad_x,
            quads@ == survey(map@, x as nat, quad_y as nat),
        decreases quad_x - x,
    {
        let mut y: usize = 0;
        while y < quad_y
            invariant
                is_grid(map@),
                width == map@.len(),
                height == map@[0].len(),
                quad_x == quadrant_count(width as nat),
                quad_y == quadrant_count(height as nat),
                x < quad_x,
                y <= quad_y,
                quads@ == survey(map@, x as nat, quad_y as nat) + quadrant_column(
                    map@,
                    x as int,
                    y as nat,
                ),
            decreases quad_y - y,
        {
            let kind = evaluate_quadrant(map, x, y);
            let pos = Point {
                x: x * QUADRANT_SIZE + QUADRANT_SIZE / 2,
                y: y * QUADRANT_SIZE + QUADRANT_SIZE / 2,
            };
            quads.push(Quadrant { pos, kind, quad_state: QuadState::NotFound });
            assert(quadrant_column(map@, x as int, (y + 1) as nat) =~= quadrant_column(
                map@,
                x as int,
                y as nat,
            ).push(surveyed_quadrant(map@, x as int, y as int)));
            y += 1;
        }
        x += 1;
    }
    quads
}

/// The quadrants kept for the flight phase.
pub struct Quadrants {
    pub q: Vec<Quadrant>,
}

/// A place the drone is sent to.
#[derive(Debug, Clone, Copy, PartialEq, Eq, Structural)]
pub struct Target {
    pub quad: Quadrant,
}

/// The targets of a phase, in visiting order, and how many of them the
/// drone has been sent to so far.
pub struct ReconTargets {
    pub quads: Vec<Target>,
    pub current: usize,
}

/// The targets for a sequence of quadrants, one each, in the same order.
pub open spec fn targets_of(quads: Seq<Quadrant>) -> Seq<Target> {
    quads.map_values(|quad: Quadrant| Target { quad })
}

/// One target per quadrant, in the order of the quadrants.
pub fn target_vector(quads: Vec<Quadrant>) -> (targets: Vec<Target>)
    ensures
        targets@ == targets_of(quads@),
        targets@.len() == quads@.len(),
        forall|i: int| 0 <= i < quads@.len() ==> #[trigger] targets@[i] == (Target { quad: quads@[i] }),
{
    let mut targets: Vec<Target> = Vec::new();
    let mut i: usize = 0;
    while i < quads.len()
        invariant
            i <= quads@.len(),
            targets@ == targets_of(quads@.take(i as int)),
        decreases quads@.len() - i,
    {
        targets.push(Target { quad: quads[i] });
        assert(quads@.take(i + 1) =~= quads@.take(i as int).push(quads@[i as int]));
        i += 1;
    }
    assert(quads@.take(quads@.len() as int) =~= quads@);
    targets
}

/// Where the drone is heading during the flight phase.
#[derive(Debug, Clone, Copy, PartialEq, Eq, Structural)]
pub enum Moving {
    ToBase,
    ToQuad,
}

/// The survey drone.
pub struct Drone {
    pub pos: Point,
    pub target: Option<Target>,
    pub speed: usize,
    pub moving: Moving,
}

impl Drone {
    /// A drone standing at `(x, y)`, with no target yet, at cruising speed,
    /// about to head for its first quadrant.
    pub fn init_with_pos(x: usize, y: usize) -> (drone: Drone)
        ensures
            drone.pos == (Point { x, y }),
            drone.target.is_none(),
            drone.speed == SPEED,
            drone.moving == Moving::ToQuad,
    {
        Drone { pos: Point { x, y }, target: None, speed: SPEED, moving: Moving::ToQuad }
    }

    /// Sends the drone to `target`; nothing else about it changes.
    pub fn set_target(&mut self, target: &Target)
        ensures
            final(self).target == Some(*target),
            final(self).pos == old(self).pos,
            final(self).speed == old(self).speed,
            final(self).moving == old(self).moving,
    {
        self.target = Some(*target);
    }
}

/// The survey of an `nx` by `ny` block of quadrants holds `nx * ny` quadrants.
pub proof fn lemma_survey_len(g: Seq<Seq<Tile>>, nx: nat, ny: nat)
    ensures
        survey(g, nx, ny).len() == nx * ny,
    decreases nx,
{
    if nx > 0 {
        lemma_survey_len(g, (nx - 1) as nat, ny);
        assert(nx * ny == (nx - 1) * ny + ny) by (nonlinear_arith)
            requires nx > 0;
    } else {
        assert(nx * ny == 0) by (nonlinear_arith)
            requires nx == 0;
    }
}

/// Quadrant `(qx, qy)` of the survey stands at index `qx * ny + qy`:
/// column after column, and within a column by increasing row.
pub proof fn lemma_survey_index(g: Seq<Seq<Tile>>, nx: nat, ny: nat, qx: int, qy: int)
    requires
        0 <= qx < nx,
        0 <= qy < ny,
    ensures
        survey(g, nx, ny)[qx * ny + qy] == surveyed_quadrant(g, qx, qy),
    decreases nx,
{
    lemma_survey_len(g, (nx - 1) as nat, ny);
    if qx < nx - 1 {
        lemma_survey_index(g, (nx - 1) as nat, ny, qx, qy);
        assert(qx * ny + qy < (nx - 1) * ny) by (nonlinear_arith)
            requires qx < nx - 1, qy < ny, qx >= 0;
    } else {
        assert(qx * ny == (nx - 1) * ny);
    }
}

/// Two grids hold the same tiles over the block of `cols` columns from `x0`
/// and `rows` rows from `y0`.
pub open spec fn agree_on_block(
    g1: Seq<Seq<Tile>>,
    g2: Seq<Seq<Tile>>,
    x0: int,
    y0: int,
    cols: nat,
    rows: nat,
) -> bool {
    forall|x: int, y: int|
        x0 <= x < x0 + cols && y0 <= y < y0 + rows ==> #[trigger] g1[x][y] == g2[x][y]
}

proof fn lemma_column_land_local(c1: Seq<Tile>, c2: Seq<Tile>, y0: int, n: nat)
    requires
        forall|y: int| y0 <= y < y0 + n ==> #[trigger] c1[y] == c2[y],
    ensures
        column_land(c1, y0, n) == column_land(c2, y0, n),
    decreases n,
{
    if n > 0 {
        lemma_column_land_local(c1, c2, y0, (n - 1) as nat);
        assert(c1[y0 + n - 1] == c2[y0 + n - 1]);
    }
}

proof fn lemma_block_land_local(
    g1: Seq<Seq<Tile>>,
    g2: Seq<Seq<Tile>>,
    x0: int,
    y0: int,
    cols: nat,
    rows: nat,
)
    requires
        agree_on_block(g1, g2, x0, y0, cols, rows),
    ensures
        block_land(g1, x0, y0, cols, rows) == block_land(g2, x0, y0, cols, rows),
    decreases cols,
{
    if cols > 0 {
        lemma_block_land_local(g1, g2, x0, y0, (cols - 1) as nat, rows);
        let x = x0 + cols - 1;
        assert forall|y: int| y0 <= y < y0 + rows implies #[trigger] g1[x][y] == g2[x][y] by {}
        lemma_column_land_local(g1[x], g2[x], y0, rows);
    }
}

/// Law of the classification: only the tiles inside a quadrant decide its
/// kind; tiles outside it never matter.
pub proof fn lemma_quadrant_kind_local(g1: Seq<Seq<Tile>>, g2: Seq<Seq<Tile>>, qx: int, qy: int)
    requires
        agree_on_block(
            g1,
            g2,
            qx * QUADRANT_SIZE,
            qy * QUADRANT_SIZE,
            QUADRANT_SIZE as nat,
            QUADRANT_SIZE as nat,
        ),
    ensures
        quadrant_kind(g1, qx, qy) == quadrant_kind(g2, qx, qy),
{
    lemma_block_land_local(
        g1,
        g2,
        qx * QUADRANT_SIZE,
        qy * QUADRANT_SIZE,
        QUADRANT_SIZE as nat,
        QUADRANT_SIZE as nat,
    );
}

/// Law of the classification: only the number of land cells in a quadrant
/// decides its kind (so moving tiles around inside it, or turning water
/// into base or back, changes nothing); it is land exactly when it holds at
/// least six land cells; and more land never turns a land quadrant into water.
pub proof fn lemma_quadrant_kind_by_land_count(
    g1: Seq<Seq<Tile>>,
    g2: Seq<Seq<Tile>>,
    qx: int,
    qy: int,
)
    ensures
        quadrant_land(g1, qx, qy) == quadrant_land(g2, qx, qy) ==> quadrant_kind(g1, qx, qy)
            == quadrant_kind(g2, qx, qy),
        (quadrant_kind(g1, qx, qy) == Tile::Land) <==> quadrant_land(g1, qx, qy) >= 6,
        quadrant_land(g1, qx, qy) <= quadrant_land(g2, qx, qy) && quadrant_kind(g1, qx, qy)
            == Tile::Land ==> quadrant_kind(g2, qx, qy) == Tile::Land,
{
}

/// Law of the survey: the survey of `nx` by `ny` quadrants depends only on
/// the cells those quadrants cover; the strips beyond the last whole
/// quadrant never influence it.
pub proof fn lemma_survey_local(g1: Seq<Seq<Tile>>, g2: Seq<Seq<Tile>>, nx: nat, ny: nat)
    requires
        agree_on_block(g1, g2, 0, 0, nx * (QUADRANT_SIZE as nat), ny * (QUADRANT_SIZE as nat)),
    ensures
        survey(g1, nx, ny) == survey(g2, nx, ny),
    decreases nx,
{
    if nx > 0 {
        let qx = nx - 1;
        lemma_survey_local(g1, g2, (nx - 1) as nat, ny);
        assert forall|qy: int| 0 <= qy < ny implies #[trigger] surveyed_quadrant(g1, qx, qy)
            == surveyed_quadrant(g2, qx, qy) by {
            assert forall|x: int, y: int|
                qx * QUADRANT_SIZE <= x < qx * QUADRANT_SIZE + QUADRANT_SIZE && qy * QUADRANT_SIZE
                    <= y < qy * QUADRANT_SIZE + QUADRANT_SIZE implies #[trigger] g1[x][y]
                == g2[x][y] by {}
            lemma_quadrant_kind_local(g1, g2, qx, qy);
        }
        assert(quadrant_column(g1, qx, ny) =~= quadrant_column(g2, qx, ny));
    }
}

/// Law of the survey: on a grid whose sides fit in a `usize`, the centre of
/// every whole quadrant lies inside the grid, so its position is the exact
/// centre.
pub proof fn lemma_survey_centres(g: Seq<Seq<Tile>>, qx: int, qy: int)
    requires
        is_grid(g),
        grid_width(g) <= usize::MAX,
        grid_height(g) <= usize::MAX,
        0 <= qx < quadrant_count(grid_width(g)),
        0 <= qy < quadrant_count(grid_height(g)),
    ensures
        surveyed_quadrant(g, qx, qy).pos.x == quadrant_center(qx),
        surveyed_quadrant(g, qx, qy).pos.y == quadrant_center(qy),
        quadrant_center(qx) < grid_width(g),
        quadrant_center(qy) < grid_height(g),
{
}

/// Law of the coast map: the base stands at `(1, height - 2)`; every other
/// cell is land exactly when the mask says so, and water otherwise.
pub proof fn lemma_coast_tile_follows_mask(land: Seq<Seq<bool>>, height: nat, x: int, y: int)
    ensures
        x == 1 && y == height - 2 ==> coast_tile(land, height, x, y) == Tile::Base,
        !(x == 1 && y == height - 2) ==> {
            &&& (coast_tile(land, height, x, y) == Tile::Land <==> land[x][y])
            &&& (coast_tile(land, height, x, y) == Tile::Land || coast_tile(land, height, x, y)
                == Tile::Water)
        },
{
}

/// Law of the targets: one target per quadrant, holding that quadrant, in
/// the same order.
pub proof fn lemma_targets_of_quadrants(quads: Seq<Quadrant>)
    ensures
        targets_of(quads).len() == quads.len(),
        forall|i: int| 0 <= i < quads.len() ==> #[trigger] targets_of(quads)[i] == (Target {
            quad: quads[i],
        }),
{
}

/// Law of the quadrant count: it is the number of whole blocks of ten cells
/// along a side, `cells / 10` rounded down.
pub proof fn lemma_quadrant_count_is_whole_blocks(cells: nat)
    ensures
        quadrant_count(cells) * 10 <= cells < quadrant_count(cells) * 10 + 10,
{
}

/// The land cells of a column, between rows `y0` and `y0 + n`.
spec fn column_land_cells(g: Seq<Seq<Tile>>, x: int, y0: int, n: int) -> Set<(int, int)> {
    Set::new(|c: (int, int)| c.0 == x && y0 <= c.1 < y0 + n && g[c.0][c.1] == Tile::Land)
}

/// The land cells of a block of `cols` columns and `rows` rows.
spec fn block_land_cells(g: Seq<Seq<Tile>>, x0: int, y0: int, cols: int, rows: int) -> Set<
    (int, int),
> {
    Set::new(
        |c: (int, int)| x0 <= c.0 < x0 + cols && y0 <= c.1 < y0 + rows && g[c.0][c.1] == Tile::Land,
    )
}

proof fn lemma_column_land_counts_cells(g: Seq<Seq<Tile>>, x: int, y0: int, n: nat)
    ensures
        column_land_cells(g, x, y0, n as int).finite(),
        column_land_cells(g, x, y0, n as int).len() == column_land(g[x], y0, n),
    decreases n,
{
    broadcast use vstd::set::group_set_axioms;

    if n == 0 {
        assert(column_land_cells(g, x, y0, 0) =~= Set::<(int, int)>::empty());
    } else {
        let m = (n - 1) as nat;
        lemma_column_land_counts_cells(g, x, y0, m);
        let prev = column_land_cells(g, x, y0, m as int);
        let c = (x, y0 + n - 1);
        assert(!prev.contains(c));
        if g[x][y0 + n - 1] == Tile::Land {
            assert(column_land_cells(g, x, y0, n as int) =~= prev.insert(c));
        } else {
            assert(column_land_cells(g, x, y0, n as int) =~= prev);
        }
    }
}

proof fn lemma_block_land_counts_cells(g: Seq<Seq<Tile>>, x0: int, y0: int, cols: nat, rows: nat)
    ensures
        block_land_cells(g, x0, y0, cols as int, rows as int).finite(),
        block_land_cells(g, x0, y0, cols as int, rows as int).len() == block_land(
            g,
            x0,
            y0,
            cols,
            rows,
        ),
    decreases cols,
{
    broadcast use vstd::set::group_set_axioms;

    if cols == 0 {
        assert(block_land_cells(g, x0, y0, 0, rows as int) =~= Set::<(int, int)>::empty());
    } else {
        let m = (cols - 1) as nat;
        lemma_block_land_counts_cells(g, x0, y0, m, rows);
        lemma_column_land_counts_cells(g, x0 + m, y0, rows);
        let prev = block_land_cells(g, x0, y0, m as int, rows as int);
        let column = column_land_cells(g, x0 + m, y0, rows as int);
        assert(block_land_cells(g, x0, y0, cols as int, rows as int) =~= prev + column);
        assert(prev.disjoint(column));
        vstd::set_lib::lemma_set_disjoint_lens(prev, column);
    }
}

/// Law of the classification: a quadrant is land exactly when more than a
/// twentieth of its hundred cells, counted one by one wherever they lie in
/// the block, are land; otherwise it is water.
pub proof fn lemma_quadrant_kind_counts_land_cells(g: Seq<Seq<Tile>>, qx: int, qy: int)
    ensures
        ({
            let cells = Set::new(
                |c: (int, int)|
                    10 * qx <= c.0 < 10 * qx + 10 && 10 * qy <= c.1 < 10 * qy + 10 && g[c.0][c.1]
                        == Tile::Land,
            );
            &&& cells.finite()
            &&& (quadrant_kind(g, qx, qy) == Tile::Land <==> cells.len() * 20 > 100)
            &&& (quadrant_kind(g, qx, qy) == Tile::Land || quadrant_kind(g, qx, qy)
                == Tile::Water)
        }),
{
    lemma_block_land_counts_cells(g, qx * QUADRANT_SIZE, qy * QUADRANT_SIZE, 10, 10);
    let cells = Set::new(
        |c: (int, int)|
            10 * qx <= c.0 < 10 * qx + 10 && 10 * qy <= c.1 < 10 * qy + 10 && g[c.0][c.1]
                == Tile::Land,
    );
    assert(cells =~= block_land_cells(g, qx * QUADRANT_SIZE, qy * QUADRANT_SIZE, 10, 10));
}

/// Law of the survey that `reconnaissance` returns: it holds
/// `(width / 10) * (height / 10)` quadrants, one per whole block of ten by
/// ten cells.
pub proof fn lemma_survey_count(g: Seq<Seq<Tile>>)
    ensures
        survey(g, quadrant_count(grid_width(g)), quadrant_count(grid_height(g))).len() == (g.len()
            / 10) * (g[0].len() / 10),
{
    lemma_survey_len(g, quadrant_count(grid_width(g)), quadrant_count(grid_height(g)));
}

/// Law of the survey that `reconnaissance` returns: the quadrant of block
/// column `qx` and block row `qy` stands at index `qx * (height / 10) + qy`,
/// centred at `(10 qx + 5, 10 qy + 5)`, not looked at yet, and is land
/// exactly when more than a twentieth of its cells are land, water otherwise.
pub proof fn lemma_survey_quadrant(g: Seq<Seq<Tile>>, qx: int, qy: int)
    requires
        0 <= qx < g.len() / 10,
        0 <= qy < g[0].len() / 10,
    ensures
        ({
            let q = survey(g, quadrant_count(grid_width(g)), quadrant_count(grid_height(g)))[qx * (
            g[0].len() / 10) + qy];
            let cells = Set::new(
                |c: (int, int)|
                    10 * qx <= c.0 < 10 * qx + 10 && 10 * qy <= c.1 < 10 * qy + 10 && g[c.0][c.1]
                        == Tile::Land,
            );
            &&& q.pos == (Point { x: (10 * qx + 5) as usize, y: (10 * qy + 5) as usize })
            &&& q.quad_state == QuadState::NotFound
            &&& cells.finite()
            &&& (q.kind == Tile::Land <==> cells.len() * 20 > 100)
            &&& (q.kind == Tile::Land || q.kind == Tile::Water)
        }),
{
    let nx = quadrant_count(grid_width(g));
    let ny = quadrant_count(grid_height(g));
    lemma_survey_index(g, nx, ny, qx, qy);
    lemma_quadrant_kind_counts_land_cells(g, qx, qy);
}

} // verus!
