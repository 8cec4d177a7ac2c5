use vstd::prelude::*;
use vstd::arithmetic::div_mod::{
    lemma_div_denominator, lemma_fundamental_div_mod, lemma_fundamental_div_mod_converse,
    lemma_small_mod,
};

use crate::cube::{build_unit_cube, CubeGeometry};

verus! {

/// Why a terrain description was refused.
#[derive(Clone, Copy, Debug, PartialEq, Eq, Structural)]
pub enum TerrainError {
    /// The cell size is not positive, or an extent component is negative.
    InvalidSpec,
}

/// The world-space size of the terrain along each axis.
///
/// All lengths of this module share one integer unit chosen by the caller
/// (millimetres, say): extents, the cell size and emitted world positions.
#[derive(Clone, Copy, Debug, PartialEq, Eq, Structural)]
pub struct Extent {
    pub x: i64,
    pub y: i64,
    pub z: i64,
}

/// The integer grid coordinate of one voxel.
#[derive(Clone, Copy, Debug, PartialEq, Eq, Structural)]
pub struct VoxelCoordinate {
    pub x: i64,
    pub y: i64,
    pub z: i64,
}

/// The world-space centre of one voxel, in the unit of `Extent`.
#[derive(Clone, Copy, Debug, PartialEq, Eq, Structural)]
pub struct WorldPosition {
    pub x: i64,
    pub y: i64,
    pub z: i64,
}

/// One emitted voxel. Its geometry and material are the ones shared by the
/// whole `GeneratedTerrain` it belongs to.
#[derive(Clone, Copy, Debug, PartialEq, Eq, Structural)]
pub struct RenderableVoxel {
    pub coordinate: VoxelCoordinate,
    pub position: WorldPosition,
}

/// An RGB colour, each channel in hundredths (`0..=100`).
#[derive(Clone, Copy, Debug, PartialEq, Eq, Structural)]
pub struct BaseColor {
    pub red: u8,
    pub green: u8,
    pub blue: u8,
}

/// The material parameters that every voxel receives.
#[derive(Clone, Copy, Debug, PartialEq, Eq, Structural)]
pub struct VoxelMaterial {
    pub base_color: BaseColor,
}

/// The result of one generation: one cube template and one material, shared
/// by every voxel, and the voxels in emission order.
#[derive(Debug)]
pub struct GeneratedTerrain {
    pub geometry: CubeGeometry,
    pub material: VoxelMaterial,
    pub voxels: Vec<RenderableVoxel>,
}

/// The fixed grass-green material of the terrain: base colour `(0.4, 0.7, 0.3)`.
pub open spec fn terrain_material() -> VoxelMaterial {
    VoxelMaterial { base_color: BaseColor { red: 40, green: 70, blue: 30 } }
}

/// Returns the material that every voxel of a terrain is given.
pub fn voxel_material() -> (r: VoxelMaterial)
    ensures
        r == terrain_material(),
{
    VoxelMaterial { base_color: BaseColor { red: 40, green: 70, blue: 30 } }
}

/// The first grid index of an axis with `n` cells: the grid covers the
/// integers of `[-n/2, n/2)`, that is `-(n / 2)` up to `n - n / 2`, exclusive.
pub open spec fn axis_start(n: int) -> int {
    -(n / 2)
}

/// The terrain description: total extent and the side length of one cell.
#[derive(Clone, Copy, Debug, PartialEq, Eq, Structural)]
pub struct VoxelTerrain {
    pub size: Extent,
    pub voxel_size: i64,
}

impl VoxelTerrain {
    /// Makes a terrain description; it is checked when generated.
    pub fn new(size: Extent, voxel_size: i64) -> (r: Self)
        ensures
            r.size == size,
            r.voxel_size == voxel_size,
    {
        VoxelTerrain { size, voxel_size }
    }

    /// A positive cell size and no negative extent.
    pub open spec fn is_valid(self) -> bool {
        &&& self.voxel_size > 0
        &&& self.size.x >= 0
        &&& self.size.y >= 0
        &&& self.size.z >= 0
    }

    /// Cells along x: `floor(extent.x / cell size)`.
    pub open spec fn count_x(self) -> int {
        self.size.x / self.voxel_size
    }

    pub open spec fn count_y(self) -> int {
        self.size.y / self.voxel_size
    }

    pub open spec fn count_z(self) -> int {
        self.size.z / self.voxel_size
    }

    pub open spec fn voxel_count(self) -> int {
        self.count_x() * self.count_y() * self.count_z()
    }

    /// The coordinate emitted in position `t`: x outermost, z innermost, each
    /// axis ascending from its `axis_start`.
    pub open spec fn coordinate_at(self, t: int) -> VoxelCoordinate {
        let ny: int = self.count_y();
        let nz: int = self.count_z();
        VoxelCoordinate {
            x: (axis_start(self.count_x()) + t / (ny * nz)) as i64,
            y: (axis_start(ny) + (t / nz) % ny) as i64,
            z: (axis_start(nz) + t % nz) as i64,
        }
    }

    /// The voxel emitted in position `t`: its coordinate, and as world
    /// position that coordinate scaled by the cell size.
    pub open spec fn voxel_at(self, t: int) -> RenderableVoxel {
        let c = self.coordinate_at(t);
        RenderableVoxel {
            coordinate: c,
            position: WorldPosition {
                x: (c.x * self.voxel_size) as i64,
                y: (c.y * self.voxel_size) as i64,
                z: (c.z * self.voxel_size) as i64,
            },
        }
    }

    /// The smallest coordinate of the grid.
    pub open spec fn lowest_coordinate(self) -> VoxelCoordinate {
        VoxelCoordinate {
            x: axis_start(self.count_x()) as i64,
            y: axis_start(self.count_y()) as i64,
            z: axis_start(self.count_z()) as i64,
        }
    }

    /// The cell at offsets `(a, b, c)` from the lowest coordinate of the grid.
    pub open spec fn grid_cell(self, a: int, b: int, c: int) -> VoxelCoordinate {
        VoxelCoordinate {
            x: (axis_start(self.count_x()) + a) as i64,
            y: (axis_start(self.count_y()) + b) as i64,
            z: (axis_start(self.count_z()) + c) as i64,
        }
    }

    /// The position in the emission order of the cell at offsets `(a, b, c)`.
    pub open spec fn grid_index(self, a: int, b: int, c: int) -> int {
        (a * self.count_y() + b) * self.count_z() + c
    }

    /// The largest coordinate of the grid.
    pub open spec fn highest_coordinate(self) -> VoxelCoordinate {
        VoxelCoordinate {
            x: (axis_start(self.count_x()) + self.count_x() - 1) as i64,
            y: (axis_start(self.count_y()) + self.count_y() - 1) as i64,
            z: (axis_start(self.count_z()) + self.count_z() - 1) as i64,
        }
    }

    /// `voxels` is exactly the sequence that this terrain emits.
    pub open spec fn emits(self, voxels: Seq<RenderableVoxel>) -> bool {
        &&& voxels.len() == self.voxel_count()
        &&& forall|t: int| 0 <= t < voxels.len() ==> #[trigger] voxels[t] == self.voxel_at(t)
    }

    /// The number of cells along each axis, `floor(extent / cell size)`, so
    /// that a caller can weigh the size of a terrain before generating it.
    /// Fails with `InvalidSpec` exactly when the description is not valid.
    pub fn cell_counts(&self) -> (r: Result<(i64, i64, i64), TerrainError>)
        ensures
            match r {
                Ok(counts) => {
                    &&& self.is_valid()
                    &&& counts.0 == self.count_x()
                    &&& counts.1 == self.count_y()
                    &&& counts.2 == self.count_z()
                },
                Err(e) => !self.is_valid() && e == TerrainError::InvalidSpec,
            },
    {
        if self.voxel_size <= 0 || self.size.x < 0 || self.size.y < 0 || self.size.z < 0 {
            return Err(TerrainError::InvalidSpec);
        }
        Ok((self.size.x / self.voxel_size, self.size.y / self.voxel_size, self.size.z / self.voxel_size))
    }

    /// Enumerates the voxel grid of this terrain.
    ///
    /// Fails with `InvalidSpec`, before any enumeration, exactly when the cell
    /// size is not positive or an extent component is negative. Otherwise
    /// emits, densely and in the order of `coordinate_at`, one voxel per cell
    /// of the `floor(extent / cell size)` grid centred on the origin, together
    /// with the one shared cube template and material.
    pub fn generate(&self) -> (r: Result<GeneratedTerrain, TerrainError>)
        ensures
            match r {
                Ok(g) => {
                    &&& self.is_valid()
                    &&& self.emits(g.voxels@)
                    &&& g.geometry.is_unit_cube()
                    &&& g.material == terrain_material()
                },
                Err(e) => !self.is_valid() && e == TerrainError::InvalidSpec,
            },
    {
        let counts: (i64, i64, i64) = match self.cell_counts() {
            Ok(counts) => counts,
            Err(e) => return Err(e),
        };
        let nx: i64 = counts.0;
        let ny: i64 = counts.1;
        let nz: i64 = counts.2;
        let cell: i64 = self.voxel_size;
        let sx: i64 = -(nx / 2);
        let sy: i64 = -(ny / 2);
        let sz: i64 = -(nz / 2);
        let geometry = build_unit_cube();
        let material = voxel_material();
        let mut voxels: Vec<RenderableVoxel> = Vec::new();
        let mut x: i64 = sx;
        while x < sx + nx
            invariant
                self.is_valid(),
                cell == self.voxel_size,
                nx == self.count_x(),
                ny == self.count_y(),
                nz == self.count_z(),
                sx == axis_start(nx as int),
                sy == axis_start(ny as int),
                sz == axis_start(nz as int),
                sx <= x <= sx + nx,
                voxels@.len() == (x - sx) * (ny * nz),
                forall|t: int| 0 <= t < voxels@.len() ==> #[trigger] voxels@[t] == self.voxel_at(t),
            decreases sx + nx - x,
        {
            let mut y: i64 = sy;
            proof {
                lemma_row_start((x - sx) as int, 0, ny as int, nz as int);
            }
            while y < sy + ny
                invariant
                    self.is_valid(),
                    cell == self.voxel_size,
                    nx == self.count_x(),
                    ny == self.count_y(),
                    nz == self.count_z(),
                    sx == axis_start(nx as int),
                    sy == axis_start(ny as int),
                    sz == axis_start(nz as int),
                    sx <= x < sx + nx,
                    sy <= y <= sy + ny,
                    voxels@.len() == ((x - sx) * ny + (y - sy)) * nz,
                    forall|t: int| 0 <= t < voxels@.len() ==> #[trigger] voxels@[t] == self.voxel_at(t),
                decreases sy + ny - y,
            {
                let mut z: i64 = sz;
                while z < sz + nz
                    invariant
                        self.is_valid(),
                        cell == self.voxel_size,
                        nx == self.count_x(),
                        ny == self.count_y(),
                        nz == self.count_z(),
                        sx == axis_start(nx as int),
                        sy == axis_start(ny as int),
                        sz == axis_start(nz as int),
                        sx <= x < sx + nx,
                        sy <= y < sy + ny,
                        sz <= z <= sz + nz,
                        voxels@.len() == ((x - sx) * ny + (y - sy)) * nz + (z - sz),
                        forall|t: int| 0 <= t < voxels@.len() ==> #[trigger] voxels@[t] == self.voxel_at(t),
                    decreases sz + nz - z,
                {
                    proof {
                        lemma_grid_index((x - sx) as int, (y - sy) as int, (z - sz) as int, ny as int, nz as int);
                        lemma_scaled_cell_fits(x as int, self.size.x as int, cell as int);
                        lemma_scaled_cell_fits(y as int, self.size.y as int, cell as int);
                        lemma_scaled_cell_fits(z as int, self.size.z as int, cell as int);
                    }
                    let voxel = RenderableVoxel {
                        coordinate: VoxelCoordinate { x, y, z },
                        position: WorldPosition { x: x * cell, y: y * cell, z: z * cell },
                    };
                    voxels.push(voxel);
                    z = z + 1;
                }
                proof {
                    lemma_row_start((x - sx) as int, (y - sy) as int, ny as int, nz as int);
                }
                y = y + 1;
            }
            proof {
                lemma_row_start((x - sx) as int + 1, 0, ny as int, nz as int);
            }
            x = x + 1;
        }
        proof {
            assert(nx * (ny * nz) == nx * ny * nz) by (nonlinear_arith);
        }
        Ok(GeneratedTerrain { geometry, material, voxels })
    }
}

/// Position `(a * ny + b) * nz + c` of the enumeration holds the cell at offsets
/// `(a, b, c)` from the grid's first corner.
proof fn lemma_grid_index(a: int, b: int, c: int, ny: int, nz: int)
    requires
        0 <= a,
        0 <= b < ny,
        0 <= c < nz,
    ensures
        ((a * ny + b) * nz + c) / (ny * nz) == a,
        (((a * ny + b) * nz + c) / nz) % ny == b,
        ((a * ny + b) * nz + c) % nz == c,
{
    let t: int = (a * ny + b) * nz + c;
    assert(0 <= a * ny + b) by (nonlinear_arith)
        requires
            0 <= a,
            0 <= b < ny,
    ;
    assert(0 <= t) by (nonlinear_arith)
        requires
            0 <= a * ny + b,
            0 <= c < nz,
            t == (a * ny + b) * nz + c,
    ;
    lemma_fundamental_div_mod_converse(t, nz, a * ny + b, c);
    lemma_fundamental_div_mod_converse(a * ny + b, ny, a, b);
    lemma_div_denominator(t, nz, ny);
    assert(nz * ny == ny * nz) by (nonlinear_arith);
}

/// Where the row `(a, b)` of the enumeration starts, and where the next begins.
proof fn lemma_row_start(a: int, b: int, ny: int, nz: int)
    ensures
        (a * ny + b) * nz + nz == (a * ny + (b + 1)) * nz,
        (a * ny + 0) * nz == a * (ny * nz),
        (a * ny + ny) * nz == (a + 1) * (ny * nz),
{
    assert((a * ny + b) * nz + nz == (a * ny + (b + 1)) * nz) by (nonlinear_arith);
    assert((a * ny + 0) * nz == a * (ny * nz)) by (nonlinear_arith);
    assert((a * ny + ny) * nz == (a + 1) * (ny * nz)) by (nonlinear_arith);
}

/// A grid index scaled by the cell size stays within the extent.
proof fn lemma_scaled_cell_fits(i: int, e: int, c: int)
    requires
        c > 0,
        e >= 0,
        axis_start(e / c) <= i < axis_start(e / c) + e / c,
    ensures
        -e <= i * c <= e,
{
    let n: int = e / c;
    assert(n * c <= e) by (nonlinear_arith)
        requires
            c > 0,
            e >= 0,
            n == e / c,
    ;
    assert(-e <= i * c <= e) by (nonlinear_arith)
        requires
            c > 0,
            -n <= i <= n,
            n * c <= e,
    ;
}

/// Strict lexicographic order on coordinates, `x` first, then `y`, then `z`.
pub open spec fn lex_less(p: VoxelCoordinate, q: VoxelCoordinate) -> bool {
    p.x < q.x || (p.x == q.x && (p.y < q.y || (p.y == q.y && p.z < q.z)))
}

/// A terrain whose extent is the same `E` on all three axes emits exactly
/// `floor(E / c)^3` voxels, `c` being its cell size.
pub proof fn lemma_cubic_extent_count(terrain: VoxelTerrain, voxels: Seq<RenderableVoxel>)
    requires
        terrain.is_valid(),
        terrain.size.x == terrain.size.y,
        terrain.size.y == terrain.size.z,
        terrain.emits(voxels),
    ensures
        ({
            let n = terrain.size.x / terrain.voxel_size;
            voxels.len() == n * n * n
        }),
{
}

/// Generation is deterministic: equal terrain descriptions emit identical
/// voxel sequences, coordinates and world positions in the same order.
pub proof fn lemma_emission_deterministic(
    a: VoxelTerrain,
    b: VoxelTerrain,
    va: Seq<RenderableVoxel>,
    vb: Seq<RenderableVoxel>,
)
    requires
        a == b,
        a.emits(va),
        b.emits(vb),
    ensures
        va == vb,
{
    assert(va =~= vb);
}

/// Emission runs in strictly ascending lexicographic order of coordinates,
/// from the grid's lowest corner to its highest: every voxel comes before
/// every voxel with a larger coordinate, the first is at
/// the grid's lowest coordinate and the last at its highest.
pub proof fn lemma_emission_ascending(terrain: VoxelTerrain, voxels: Seq<RenderableVoxel>)
    requires
        terrain.is_valid(),
        terrain.emits(voxels),
    ensures
        forall|s: int, t: int|
            0 <= s < t < voxels.len() ==> lex_less(
                #[trigger] voxels[s].coordinate,
                #[trigger] voxels[t].coordinate,
            ),
        voxels.len() > 0 ==> voxels[0].coordinate == terrain.lowest_coordinate(),
        voxels.len() > 0 ==> voxels[voxels.len() - 1].coordinate == terrain.highest_coordinate(),
{
    let nx: int = terrain.count_x();
    let ny: int = terrain.count_y();
    let nz: int = terrain.count_z();
    assert forall|s: int, t: int|
        0 <= s < t < voxels.len() implies lex_less(
            #[trigger] voxels[s].coordinate,
            #[trigger] voxels[t].coordinate,
        ) by {
        lemma_nonempty_axes(nx, ny, nz, t);
        lemma_grid_offsets(terrain, s);
        lemma_grid_offsets(terrain, t);
        let (a1, b1, c1) = (s / (ny * nz), (s / nz) % ny, s % nz);
        let (a2, b2, c2) = (t / (ny * nz), (t / nz) % ny, t % nz);
        lemma_mixed_radix_order(a1 * ny + b1, c1, a2 * ny + b2, c2, nz);
        if a1 * ny + b1 < a2 * ny + b2 {
            lemma_mixed_radix_order(a1, b1, a2, b2, ny);
        } else {
            lemma_fundamental_div_mod_converse(a1 * ny + b1, ny, a1, b1);
            lemma_fundamental_div_mod_converse(a2 * ny + b2, ny, a2, b2);
        }
    }
    if voxels.len() > 0 {
        let last: int = voxels.len() - 1;
        lemma_nonempty_axes(nx, ny, nz, last);
        lemma_grid_offsets(terrain, 0);
        assert(ny * nz > 0) by (nonlinear_arith)
            requires
                ny > 0,
                nz > 0,
        ;
        lemma_fundamental_div_mod_converse(0, ny * nz, 0, 0);
        lemma_fundamental_div_mod_converse(0, nz, 0, 0);
        lemma_small_mod(0, ny as nat);
        lemma_grid_offsets(terrain, last);
        lemma_grid_index(nx - 1, ny - 1, nz - 1, ny, nz);
        assert(((nx - 1) * ny + (ny - 1)) * nz + (nz - 1) == nx * ny * nz - 1) by (nonlinear_arith);
    }
}

/// Generation is dense: each cell of the grid, at offsets `(a, b, c)` from
/// the lowest coordinate, is emitted, in position `grid_index(a, b, c)`.
pub proof fn lemma_emission_covers_grid(terrain: VoxelTerrain, voxels: Seq<RenderableVoxel>)
    requires
        terrain.is_valid(),
        terrain.emits(voxels),
    ensures
        forall|a: int, b: int, c: int|
            0 <= a < terrain.count_x() && 0 <= b < terrain.count_y() && 0 <= c < terrain.count_z()
                ==> 0 <= #[trigger] terrain.grid_index(a, b, c) < voxels.len()
                && voxels[terrain.grid_index(a, b, c)].coordinate == terrain.grid_cell(a, b, c),
{
    let nx: int = terrain.count_x();
    let ny: int = terrain.count_y();
    let nz: int = terrain.count_z();
    assert forall|a: int, b: int, c: int|
        0 <= a < nx && 0 <= b < ny && 0 <= c < nz implies 0 <= #[trigger] terrain.grid_index(
            a,
            b,
            c,
        ) < voxels.len() && voxels[terrain.grid_index(a, b, c)].coordinate == terrain.grid_cell(
            a,
            b,
            c,
        ) by {
        let t: int = terrain.grid_index(a, b, c);
        lemma_grid_index(a, b, c, ny, nz);
        assert(0 <= t) by (nonlinear_arith)
            requires
                0 <= a,
                0 <= b,
                0 <= c,
                0 <= ny,
                0 <= nz,
                t == (a * ny + b) * nz + c,
        ;
        assert(a * ny + b < nx * ny) by (nonlinear_arith)
            requires
                0 <= a < nx,
                0 <= b < ny,
        ;
        assert(t < nx * ny * nz) by (nonlinear_arith)
            requires
                0 <= a * ny + b < nx * ny,
                0 <= c < nz,
                t == (a * ny + b) * nz + c,
        ;
        assert(voxels[t] == terrain.voxel_at(t));
    }
}

/// A position inside a grid of `nx * ny * nz` cells means every axis has cells.
proof fn lemma_nonempty_axes(nx: int, ny: int, nz: int, t: int)
    requires
        0 <= nx,
        0 <= ny,
        0 <= nz,
        0 <= t < nx * ny * nz,
    ensures
        nx > 0,
        ny > 0,
        nz > 0,
{
    assert(nx > 0 && ny > 0 && nz > 0) by (nonlinear_arith)
        requires
            0 <= nx,
            0 <= ny,
            0 <= nz,
            0 <= t < nx * ny * nz,
    ;
}

/// The offsets that `coordinate_at` gives for a position `t` of the
/// enumeration lie in the grid and rebuild `t`.
proof fn lemma_grid_offsets(terrain: VoxelTerrain, t: int)
    requires
        terrain.is_valid(),
        0 <= t < terrain.voxel_count(),
        terrain.count_y() > 0,
        terrain.count_z() > 0,
    ensures
        ({
            let ny: int = terrain.count_y();
            let nz: int = terrain.count_z();
            let a: int = t / (ny * nz);
            let b: int = (t / nz) % ny;
            let c: int = t % nz;
            &&& 0 <= a < terrain.count_x()
            &&& 0 <= b < ny
            &&& 0 <= c < nz
            &&& t == (a * ny + b) * nz + c
            &&& terrain.coordinate_at(t).x == axis_start(terrain.count_x()) + a
            &&& terrain.coordinate_at(t).y == axis_start(ny) + b
            &&& terrain.coordinate_at(t).z == axis_start(nz) + c
        }),
{
    let nx: int = terrain.count_x();
    let ny: int = terrain.count_y();
    let nz: int = terrain.count_z();
    let a: int = t / (ny * nz);
    let b: int = (t / nz) % ny;
    let c: int = t % nz;
    lemma_fundamental_div_mod(t, nz);
    lemma_fundamental_div_mod(t / nz, ny);
    lemma_div_denominator(t, nz, ny);
    assert(nz * ny == ny * nz) by (nonlinear_arith);
    assert(0 <= t / nz) by (nonlinear_arith)
        requires
            0 <= t,
            0 < nz,
    ;
    assert(t == (a * ny + b) * nz + c) by (nonlinear_arith)
        requires
            t == nz * (t / nz) + c,
            t / nz == ny * a + b,
    ;
    assert(0 <= a) by (nonlinear_arith)
        requires
            0 <= t,
            0 < ny * nz,
            a == t / (ny * nz),
    ;
    assert(nx * ny * nz == (nx * ny + 0) * nz + 0) by (nonlinear_arith);
    lemma_mixed_radix_order(a * ny + b, c, nx * ny + 0, 0, nz);
    lemma_mixed_radix_order(a, b, nx, 0, ny);
    assert(nx <= terrain.size.x) by (nonlinear_arith)
        requires
            nx == terrain.size.x / terrain.voxel_size,
            terrain.voxel_size > 0,
            terrain.size.x >= 0,
    ;
    assert(ny <= terrain.size.y) by (nonlinear_arith)
        requires
            ny == terrain.size.y / terrain.voxel_size,
            terrain.voxel_size > 0,
            terrain.size.y >= 0,
    ;
    assert(nz <= terrain.size.z) by (nonlinear_arith)
        requires
            nz == terrain.size.z / terrain.voxel_size,
            terrain.voxel_size > 0,
            terrain.size.z >= 0,
    ;
}

/// In a mixed-radix numeral with last digit base `d`, a smaller number has a
/// smaller leading part, or the same leading part and a smaller last digit.
proof fn lemma_mixed_radix_order(q1: int, r1: int, q2: int, r2: int, d: int)
    requires
        0 <= r1 < d,
        0 <= r2 < d,
        q1 * d + r1 < q2 * d + r2,
    ensures
        q1 < q2 || (q1 == q2 && r1 < r2),
{
    if q1 > q2 {
        assert(q1 * d >= q2 * d + d) by (nonlinear_arith)
            requires
                q1 > q2,
                d > 0,
        ;
    }
}

} // verus!
