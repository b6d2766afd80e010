use vstd::prelude::*;
use vstd::arithmetic::div_mod::{
    lemma_fundamental_div_mod,
    lemma_fundamental_div_mod_converse,
    lemma_mod_mod,
    lemma_div_pos_is_pos,
};
use vstd::arithmetic::mul::lemma_mul_is_commutative;

use crate::error::WorldError;
use crate::voxel::Voxel;

verus! {

/// Storage position of cell `(x, y, z)` in a chunk `w` wide and `h` high: layer by layer,
/// then row by row along x, then along z.
pub open spec fn linear_index(w: int, h: int, x: int, y: int, z: int) -> int {
    y * (w * h) + x * h + z
}

/// The x coordinate of the `k`-th cell in storage (and scan) order.
pub open spec fn scan_x(w: int, h: int, k: int) -> int {
    (k % (w * h)) / h
}

/// The y coordinate (layer) of the `k`-th cell in storage (and scan) order.
pub open spec fn scan_y(w: int, h: int, k: int) -> int {
    k / (w * h)
}

/// The z coordinate of the `k`-th cell in storage (and scan) order.
pub open spec fn scan_z(h: int, k: int) -> int {
    k % h
}

/// Extents that a chunk can have: none zero, and the cell count addressable.
pub open spec fn valid_extents(w: int, h: int, l: int) -> bool {
    &&& 0 < w
    &&& 0 < h
    &&& 0 < l
    &&& w * h * l <= isize::MAX
}

/// A column height clamped into `0..=layers`.
pub open spec fn clamped_height(height: int, layers: int) -> int {
    if height < 0 {
        0
    } else if height > layers {
        layers
    } else {
        height
    }
}

/// The voxel that generation puts at layer `y` of a column of the given height.
pub open spec fn terrain_voxel(height: int, y: int, shade: u8) -> Voxel {
    if y < height {
        Voxel::Solid { shade }
    } else {
        Voxel::Air
    }
}

/// The `k`-th cell in storage order lies inside the chunk, and storing it there gives back `k`.
pub proof fn lemma_scan_cell(w: int, h: int, l: int, k: int)
    requires
        0 < w,
        0 < h,
        0 < l,
        0 <= k < w * h * l,
    ensures
        0 <= scan_x(w, h, k) < w,
        0 <= scan_y(w, h, k) < l,
        0 <= scan_z(h, k) < h,
        linear_index(w, h, scan_x(w, h, k), scan_y(w, h, k), scan_z(h, k)) == k,
{
    let wh = w * h;
    assert(wh > 0) by (nonlinear_arith)
        requires
            0 < w,
            0 < h,
            wh == w * h,
    ;
    let y = k / wh;
    let r = k % wh;
    lemma_fundamental_div_mod(k, wh);
    lemma_div_pos_is_pos(k, wh);
    let x = r / h;
    let z = r % h;
    lemma_fundamental_div_mod(r, h);
    lemma_div_pos_is_pos(r, h);
    lemma_mul_is_commutative(w, h);
    lemma_mod_mod(k, h, w);
    assert(z == k % h);
    assert(x < w) by (nonlinear_arith)
        requires
            r == h * x + z,
            0 <= z,
            r < w * h,
            0 < h,
    ;
    assert(y < l) by (nonlinear_arith)
        requires
            k == wh * y + r,
            0 <= r,
            k < wh * l,
            0 < wh,
    ;
    assert(linear_index(w, h, x, y, z) == k) by (nonlinear_arith)
        requires
            k == wh * y + r,
            r == h * x + z,
            wh == w * h,
    ;
}

/// Storage positions of the cells inside a chunk lie below its cell count and decode back to
/// the cell.
pub proof fn lemma_index_cell(w: int, h: int, l: int, x: int, y: int, z: int)
    requires
        0 < w,
        0 < h,
        0 < l,
        0 <= x < w,
        0 <= y < l,
        0 <= z < h,
    ensures
        0 <= linear_index(w, h, x, y, z) < w * h * l,
        scan_x(w, h, linear_index(w, h, x, y, z)) == x,
        scan_y(w, h, linear_index(w, h, x, y, z)) == y,
        scan_z(h, linear_index(w, h, x, y, z)) == z,
{
    let wh = w * h;
    let i = x * h + z;
    let k = linear_index(w, h, x, y, z);
    assert(0 <= i < wh) by (nonlinear_arith)
        requires
            0 <= x < w,
            0 <= z < h,
            i == x * h + z,
            wh == w * h,
    ;
    assert(0 <= k < w * h * l) by (nonlinear_arith)
        requires
            k == y * wh + i,
            0 <= i < wh,
            0 <= y < l,
            wh == w * h,
    ;
    lemma_fundamental_div_mod_converse(k, wh, y, i);
    lemma_fundamental_div_mod_converse(i, h, x, z);
    assert(k == (y * w + x) * h + z) by (nonlinear_arith)
        requires
            k == y * wh + x * h + z,
            wh == w * h,
    ;
    lemma_fundamental_div_mod_converse(k, h, y * w + x, z);
}

/// Each extent, and the area of a layer, is at most the cell count.
pub proof fn lemma_extent_bounds(w: int, h: int, l: int)
    requires
        valid_extents(w, h, l),
    ensures
        w * h <= w * h * l,
        w <= w * h * l,
        h <= w * h * l,
        l <= w * h * l,
        0 < w * h,
{
    assert(w * h <= w * h * l && w <= w * h * l && h <= w * h * l && l <= w * h * l && 0 < w * h)
        by (nonlinear_arith)
        requires
            0 < w,
            0 < h,
            0 < l,
    ;
}

/// Clamps a sampled column height into `0..=layers`.
pub fn clamp_height(height: i64, layers: usize) -> (r: usize)
    requires
        layers <= isize::MAX,
    ensures
        r as int == clamped_height(height as int, layers as int),
{
    if height < 0 {
        0
    } else if height as u64 > layers as u64 {
        layers
    } else {
        height as usize
    }
}

/// The cell count of a chunk with the given extents, when they are valid.
fn checked_volume(width: usize, height: usize, layers: usize) -> (r: Option<usize>)
    ensures
        r is Some <==> valid_extents(width as int, height as int, layers as int),
        r matches Some(v) ==> v as int == width as int * height as int * layers as int,
{
    if width == 0 || height == 0 || layers == 0 {
        return None;
    }
    match width.checked_mul(height) {
        None => {
            assert(width as int * height as int * layers as int > isize::MAX) by (nonlinear_arith)
                requires
                    width as int * height as int > usize::MAX,
                    layers > 0,
                    usize::MAX >= isize::MAX,
            ;
            None
        },
        Some(area) => match area.checked_mul(layers) {
            None => None,
            Some(v) => {
                if v > isize::MAX as usize {
                    None
                } else {
                    Some(v)
                }
            },
        },
    }
}

/// A `width × layers × height` block of voxels (x, y and z extents) placed at a position on
/// the chunk grid.
pub struct Chunk {
    width: usize,
    height: usize,
    layers: usize,
    voxels: Vec<Voxel>,
    position: (i64, i64),
}

impl Chunk {
    /// Extent along x.
    pub closed spec fn spec_width(&self) -> int {
        self.width as int
    }

    /// Extent along z.
    pub closed spec fn spec_height(&self) -> int {
        self.height as int
    }

    /// Extent along y: the number of layers.
    pub closed spec fn spec_layers(&self) -> int {
        self.layers as int
    }

    /// Coordinate of the chunk on the chunk grid, as (x, z).
    pub closed spec fn spec_position(&self) -> (i64, i64) {
        self.position
    }

    pub open spec fn volume(&self) -> int {
        self.spec_width() * self.spec_height() * self.spec_layers()
    }

    pub open spec fn in_bounds(&self, x: int, y: int, z: int) -> bool {
        &&& 0 <= x < self.spec_width()
        &&& 0 <= y < self.spec_layers()
        &&& 0 <= z < self.spec_height()
    }

    /// Every cell holds a voxel.
    pub closed spec fn storage_wf(&self) -> bool {
        self.voxels@.len() == self.volume()
    }

    pub open spec fn wf(&self) -> bool {
        &&& valid_extents(self.spec_width(), self.spec_height(), self.spec_layers())
        &&& self.storage_wf()
    }

    /// The voxel stored for cell `(x, y, z)` of the chunk.
    pub closed spec fn stored_voxel(&self, x: int, y: int, z: int) -> Voxel {
        self.voxels@[linear_index(self.spec_width(), self.spec_height(), x, y, z)]
    }

    /// The voxel at `(x, y, z)`; air outside the chunk.
    pub open spec fn voxel_at(&self, x: int, y: int, z: int) -> Voxel {
        if self.in_bounds(x, y, z) {
            self.stored_voxel(x, y, z)
        } else {
            Voxel::Air
        }
    }

    /// The chunk has the given extents and position.
    pub open spec fn has_shape(&self, width: int, height: int, layers: int, position: (i64, i64)) -> bool {
        &&& self.spec_width() == width
        &&& self.spec_height() == height
        &&& self.spec_layers() == layers
        &&& self.spec_position() == position
    }

    /// The chunk is what generation makes of one height per column (indexed `x * height + z`)
    /// and one shade per cell (indexed by storage position).
    pub open spec fn generated_from(&self, heights: Seq<i64>, shades: Seq<u8>) -> bool {
        forall|x: int, y: int, z: int|
            #![trigger self.voxel_at(x, y, z)]
            self.in_bounds(x, y, z) ==> self.voxel_at(x, y, z) == terrain_voxel(
                clamped_height(
                    heights[x * self.spec_height() + z] as int,
                    self.spec_layers(),
                ),
                y,
                shades[linear_index(self.spec_width(), self.spec_height(), x, y, z)],
            )
    }

    /// Cells outside the chunk read as air.
    pub proof fn lemma_outside_is_air(&self, x: int, y: int, z: int)
        requires
            !self.in_bounds(x, y, z),
        ensures
            self.voxel_at(x, y, z) == Voxel::Air,
    {
    }

    proof fn lemma_voxel_at_storage(&self, x: int, y: int, z: int)
        requires
            self.wf(),
            self.in_bounds(x, y, z),
        ensures
            0 <= linear_index(self.spec_width(), self.spec_height(), x, y, z) < self.voxels@.len(),
            self.voxel_at(x, y, z) == self.voxels@[linear_index(
                self.spec_width(),
                self.spec_height(),
                x,
                y,
                z,
            )],
    {
        lemma_index_cell(self.spec_width(), self.spec_height(), self.spec_layers(), x, y, z);
    }

    /// Builds a chunk from voxels listed in storage order (see `linear_index`).
    pub fn from_voxels(
        width: usize,
        height: usize,
        layers: usize,
        position: (i64, i64),
        voxels: Vec<Voxel>,
    ) -> (r: Result<Chunk, WorldError>)
        ensures
            r is Ok <==> valid_extents(width as int, height as int, layers as int)
                && voxels@.len() == width as int * height as int * layers as int,
            r is Err ==> r == Err::<Chunk, WorldError>(WorldError::ConfigurationError),
            r matches Ok(c) ==> {
                &&& c.wf()
                &&& c.has_shape(width as int, height as int, layers as int, position)
                &&& forall|x: int, y: int, z: int|
                    #![trigger c.voxel_at(x, y, z)]
                    c.in_bounds(x, y, z) ==> c.voxel_at(x, y, z) == voxels@[linear_index(
                        width as int,
                        height as int,
                        x,
                        y,
                        z,
                    )]
            },
    {
        match checked_volume(width, height, layers) {
            None => Err(WorldError::ConfigurationError),
            Some(volume) => {
                if voxels.len() != volume {
                    Err(WorldError::ConfigurationError)
                } else {
                    Ok(Chunk { width, height, layers, voxels, position })
                }
            },
        }
    }

    /// Generates a chunk from terrain samples: `heights` gives one height per column
    /// `(x, z)` at `x * height + z`, `shades` one brightness per cell in storage order. Each
    /// height is clamped into `0..=layers`; the layers below it are solid, the rest air.
    pub fn from_samples(
        width: usize,
        height: usize,
        layers: usize,
        position: (i64, i64),
        heights: &Vec<i64>,
        shades: &Vec<u8>,
    ) -> (r: Result<Chunk, WorldError>)
        ensures
            r is Ok <==> valid_extents(width as int, height as int, layers as int)
                && heights@.len() == width as int * height as int
                && shades@.len() == width as int * height as int * layers as int,
            r is Err ==> r == Err::<Chunk, WorldError>(WorldError::ConfigurationError),
            r matches Ok(c) ==> {
                &&& c.wf()
                &&& c.has_shape(width as int, height as int, layers as int, position)
                &&& c.generated_from(heights@, shades@)
            },
    {
        let volume = match checked_volume(width, height, layers) {
            None => {
                return Err(WorldError::ConfigurationError);
            },
            Some(v) => v,
        };
        proof {
            lemma_extent_bounds(width as int, height as int, layers as int);
        }
        let area = width * height;
        if heights.len() != area || shades.len() != volume {
            return Err(WorldError::ConfigurationError);
        }
        let mut voxels: Vec<Voxel> = Vec::with_capacity(volume);
        let mut k: usize = 0;
        while k < volume
            invariant
                0 < width,
                0 < height,
                0 < layers,
                area == width * height,
                volume == width * height * layers,
                volume <= isize::MAX,
                layers <= volume,
                heights@.len() == area,
                shades@.len() == volume,
                k <= volume,
                voxels@.len() == k,
                forall|j: int|
                    #![trigger voxels@[j]]
                    0 <= j < k ==> voxels@[j] == terrain_voxel(
                        clamped_height(
                            heights@[scan_x(width as int, height as int, j) * height + scan_z(
                                height as int,
                                j,
                            )] as int,
                            layers as int,
                        ),
                        scan_y(width as int, height as int, j),
                        shades@[j],
                    ),
            decreases volume - k,
        {
            proof {
                lemma_scan_cell(width as int, height as int, layers as int, k as int);
                lemma_mul_is_commutative(width as int, height as int);
            }
            let y = k / area;
            let x = (k % area) / height;
            let z = k % height;
            let column = x * height + z;
            assert(column < area) by (nonlinear_arith)
                requires
                    x < width,
                    z < height,
                    column == x * height + z,
                    area == width * height,
            ;
            let top = clamp_height(heights[column], layers);
            let voxel = if y < top {
                Voxel::Solid { shade: shades[k] }
            } else {
                Voxel::Air
            };
            voxels.push(voxel);
            k = k + 1;
        }
        let chunk = Chunk { width, height, layers, voxels, position };
        proof {
            assert forall|x: int, y: int, z: int|
                #![trigger chunk.voxel_at(x, y, z)]
                chunk.in_bounds(x, y, z) implies chunk.voxel_at(x, y, z) == terrain_voxel(
                    clamped_height(heights@[x * height + z] as int, layers as int),
                    y,
                    shades@[linear_index(width as int, height as int, x, y, z)],
                ) by {
                lemma_index_cell(width as int, height as int, layers as int, x, y, z);
            }
        }
        Ok(chunk)
    }

    /// Extent along x.
    pub fn width(&self) -> (r: usize)
        ensures
            r as int == self.spec_width(),
    {
        self.width
    }

    /// Extent along z.
    pub fn height(&self) -> (r: usize)
        ensures
            r as int == self.spec_height(),
    {
        self.height
    }

    /// Extent along y.
    pub fn layers(&self) -> (r: usize)
        ensures
            r as int == self.spec_layers(),
    {
        self.layers
    }

    /// Coordinate on the chunk grid, as (x, z).
    pub fn position(&self) -> (r: (i64, i64))
        ensures
            r == self.spec_position(),
    {
        self.position
    }

    /// The voxel at `(x, y, z)`, or `None` outside the chunk.
    pub fn get(&self, x: isize, y: isize, z: isize) -> (r: Option<&Voxel>)
        requires
            self.wf(),
        ensures
            r is Some <==> self.in_bounds(x as int, y as int, z as int),
            r matches Some(v) ==> *v == self.voxel_at(x as int, y as int, z as int),
    {
        proof {
            lemma_extent_bounds(self.spec_width(), self.spec_height(), self.spec_layers());
        }
        if x < 0 || y < 0 || z < 0 || x >= self.width as isize || y >= self.layers as isize || z
            >= self.height as isize {
            None
        } else {
            Some(self.get_unchecked(x as usize, y as usize, z as usize))
        }
    }

    /// The voxel at `(x, y, z)`, which must lie inside the chunk.
    pub fn get_unchecked(&self, x: usize, y: usize, z: usize) -> (r: &Voxel)
        requires
            self.wf(),
            self.in_bounds(x as int, y as int, z as int),
        ensures
            *r == self.voxel_at(x as int, y as int, z as int),
    {
        let i = self.index(x, y, z);
        proof {
            self.lemma_voxel_at_storage(x as int, y as int, z as int);
        }
        &self.voxels[i]
    }

    /// Storage position of `(x, y, z)`: `y * (width * height) + x * height + z`.
    pub fn index(&self, x: usize, y: usize, z: usize) -> (r: usize)
        requires
            self.wf(),
            self.in_bounds(x as int, y as int, z as int),
        ensures
            r as int == linear_index(self.spec_width(), self.spec_height(), x as int, y as int, z as int),
            (r as int) < self.volume(),
    {
        proof {
            lemma_index_cell(self.spec_width(), self.spec_height(), self.spec_layers(), x as int, y as int, z as int);
            assert(self.width * self.height <= self.volume()) by (nonlinear_arith)
                requires
                    self.volume() == self.width * self.height * self.layers,
                    self.layers > 0,
            ;
            assert(x * self.height <= self.width * self.height) by (nonlinear_arith)
                requires
                    x < self.width,
            ;
            assert(y * (self.width * self.height) <= self.volume()) by (nonlinear_arith)
                requires
                    y < self.layers,
                    self.volume() == self.width * self.height * self.layers,
            ;
        }
        y * (self.width * self.height) + x * self.height + z
    }
}

/// Extent along x of a default chunk.
pub const CHUNK_WIDTH: usize = 16;

/// Extent along z of a default chunk.
pub const CHUNK_HEIGHT: usize = 16;

/// Number of layers (extent along y) of a default chunk.
pub const CHUNK_LAYERS: usize = 16;

/// Voxels of a default-sized chunk, in storage order, before the chunk is placed on the grid.
pub struct ChunkData {
    pub voxels: Vec<Voxel>,
}

impl Default for ChunkData {
    /// A default-sized block of air.
    fn default() -> (r: Self)
        ensures
            r.voxels@.len() == CHUNK_WIDTH * CHUNK_HEIGHT * CHUNK_LAYERS,
            forall|i: int| 0 <= i < r.voxels@.len() ==> #[trigger] r.voxels@[i] == Voxel::Air,
    {
        let volume: usize = CHUNK_WIDTH * CHUNK_HEIGHT * CHUNK_LAYERS;
        let mut voxels: Vec<Voxel> = Vec::with_capacity(volume);
        let mut i: usize = 0;
        while i < volume
            invariant
                i <= volume,
                volume == CHUNK_WIDTH * CHUNK_HEIGHT * CHUNK_LAYERS,
                voxels@.len() == i,
                forall|j: int| 0 <= j < i ==> #[trigger] voxels@[j] == Voxel::Air,
            decreases volume - i,
        {
            voxels.push(Voxel::Air);
            i = i + 1;
        }
        ChunkData { voxels }
    }
}

impl ChunkData {
    /// Places the voxels on the chunk grid at `position` as a chunk of the default extents.
    pub fn into_chunk(self, position: (i64, i64)) -> (r: Result<Chunk, WorldError>)
        ensures
            r is Ok <==> self.voxels@.len() == CHUNK_WIDTH * CHUNK_HEIGHT * CHUNK_LAYERS,
            r is Err ==> r == Err::<Chunk, WorldError>(WorldError::ConfigurationError),
            r matches Ok(c) ==> {
                &&& c.wf()
                &&& c.has_shape(CHUNK_WIDTH as int, CHUNK_HEIGHT as int, CHUNK_LAYERS as int, position)
                &&& forall|x: int, y: int, z: int|
                    #![trigger c.voxel_at(x, y, z)]
                    c.in_bounds(x, y, z) ==> c.voxel_at(x, y, z) == self.voxels@[linear_index(
                        CHUNK_WIDTH as int,
                        CHUNK_HEIGHT as int,
                        x,
                        y,
                        z,
                    )]
            },
    {
        Chunk::from_voxels(CHUNK_WIDTH, CHUNK_HEIGHT, CHUNK_LAYERS, position, self.voxels)
    }
}

} // verus!
