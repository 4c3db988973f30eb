//! The data of a level map as the `tiled` editor stores it, held as plain
//! values: layers, the tiles on them, tilesets and tile properties.

use vstd::prelude::*;

verus! {

/// A coordinate read as a signed 32-bit number, the way `as i32`
/// reinterprets it.
pub open spec fn wrap_i32(x: u32) -> int {
    if x < 0x8000_0000 {
        x as int
    } else {
        x - 0x1_0000_0000
    }
}

/// `x as i32`, the two's complement reinterpretation of a `u32`.
pub fn to_i32_wrapping(x: u32) -> (r: i32)
    ensures
        r == wrap_i32(x),
{
    if x < 0x8000_0000 {
        x as i32
    } else {
        ((x - 0x8000_0000) as i32) + i32::MIN
    }
}

/// The value of a custom property of a tile.
#[derive(Debug, Clone, PartialEq)]
pub enum PropertyValue {
    BoolValue(bool),
    /// A floating point value, held as the bits of its IEEE 754 single
    /// precision encoding.
    FloatValue(u32),
    IntValue(i32),
    ColorValue(Color),
    StringValue(String),
    /// A file path, relative to the map or tileset.
    FileValue(String),
    /// The id of a referenced object, or 0 if unset.
    ObjectValue(u32),
}

/// A color property value.
#[derive(Debug, Clone, Copy, PartialEq, Eq, Structural)]
pub struct Color {
    pub alpha: u8,
    pub red: u8,
    pub green: u8,
    pub blue: u8,
}

/// Whether the `f32` with these bits is below zero (negative zero and the
/// NaNs are not).
pub open spec fn f32_bits_negative(bits: u32) -> bool {
    0x8000_0000 < bits <= 0xff80_0000
}

/// `f < 0.0` for the `f32` with these bits.
pub fn f32_is_negative(bits: u32) -> (r: bool)
    ensures
        r == f32_bits_negative(bits),
{
    0x8000_0000 < bits && bits <= 0xff80_0000
}

/// One frame of a tile animation: the tile to show and for how many
/// milliseconds.
#[derive(Debug, Clone, Copy, PartialEq, Eq, Structural)]
pub struct AnimFrame {
    pub tile_id: u32,
    pub duration: u32,
}

/// A tile of a tileset with the data attached to it.
#[derive(Debug)]
pub struct TileData {
    /// The tile's id within its tileset.
    pub id: u32,
    /// The user-defined type of the tile.
    pub tile_type: Option<String>,
    /// The custom properties, in the order they are visited.
    pub properties: Vec<(String, PropertyValue)>,
    pub animation: Option<Vec<AnimFrame>>,
    /// The path of the tile's own image, where it has one.
    pub image: Option<String>,
}

/// A tileset of the map.
#[derive(Debug)]
pub struct TilesetData {
    pub name: String,
    pub tile_width: u32,
    pub tile_height: u32,
    /// The path of the tileset's image, where the whole tileset is one image.
    pub image: Option<String>,
    /// The tiles that carry data, in the order they are visited.
    pub tiles: Vec<TileData>,
}

/// A tile placed on a tile layer.
#[derive(Debug, Clone, Copy, PartialEq, Eq, Structural)]
pub struct LayerTileData {
    /// The index of the tileset the tile is in, within the map.
    pub tileset_index: usize,
    /// The tile's id within its tileset.
    pub id: u32,
    pub flip_h: bool,
    pub flip_v: bool,
    pub flip_d: bool,
}

/// The flipping of a tile, as the tilemap renderer takes it.
#[derive(Debug, Clone, Copy, PartialEq, Eq, Structural, Default)]
pub struct TileFlip {
    pub x: bool,
    pub y: bool,
    pub d: bool,
}

impl LayerTileData {
    /// The tile's flipping flags: horizontal flip as `x`, vertical as `y`.
    pub fn bevy_flip_flags(&self) -> (r: TileFlip)
        ensures
            r == (TileFlip { x: self.flip_h, y: self.flip_v, d: self.flip_d }),
    {
        TileFlip { x: self.flip_h, y: self.flip_v, d: self.flip_d }
    }
}

/// A tile layer with a fixed size: `width * height` cells, row by row,
/// each holding a tile or nothing.
#[derive(Debug)]
pub struct FiniteTileLayer {
    width: u32,
    height: u32,
    tiles: Vec<Option<LayerTileData>>,
}

impl FiniteTileLayer {
    /// The cells cover exactly the layer's area.
    #[verifier::type_invariant]
    pub closed spec fn wf(self) -> bool {
        self.tiles@.len() == self.width * self.height
    }

    pub closed spec fn spec_width(self) -> u32 {
        self.width
    }

    pub closed spec fn spec_height(self) -> u32 {
        self.height
    }

    /// The cells, row by row.
    pub closed spec fn cells(self) -> Seq<Option<LayerTileData>> {
        self.tiles@
    }

    /// The cell at `(x, y)`, where `x` and `y` are read as signed numbers.
    pub open spec fn cell_at(self, x: int, y: int) -> Option<LayerTileData> {
        if 0 <= x < wrap_i32(self.spec_width()) && 0 <= y < wrap_i32(self.spec_height()) {
            self.cells()[x + y * self.spec_width()]
        } else {
            None
        }
    }

    /// A layer from its size and its cells, row by row; `None` unless
    /// there are exactly `width * height` cells.
    pub fn new(width: u32, height: u32, tiles: Vec<Option<LayerTileData>>) -> (r: Option<Self>)
        ensures
            r is Some <==> tiles@.len() == width * height,
            r matches Some(l) ==> l.spec_width() == width && l.spec_height() == height && l.cells()
                == tiles@,
    {
        assert((width as u64) * (height as u64) <= u64::MAX) by (nonlinear_arith)
            requires
                width <= u32::MAX,
                height <= u32::MAX,
        ;
        if (width as u64) * (height as u64) == tiles.len() as u64 {
            Some(FiniteTileLayer { width, height, tiles })
        } else {
            None
        }
    }

    pub fn width(&self) -> (r: u32)
        ensures
            r == self.spec_width(),
    {
        self.width
    }

    pub fn height(&self) -> (r: u32)
        ensures
            r == self.spec_height(),
    {
        self.height
    }

    /// The tile at `(x, y)`, or `None` for an empty cell or a position
    /// outside the layer.
    pub fn get_tile_data(&self, x: i32, y: i32) -> (r: Option<LayerTileData>)
        ensures
            r == self.cell_at(x as int, y as int),
    {
        proof {
            use_type_invariant(self);
        }
        let n = self.tiles.len();
        let w = to_i32_wrapping(self.width);
        let h = to_i32_wrapping(self.height);
        if x < w && y < h && x >= 0 && y >= 0 {
            proof {
                assert(x < self.width && y < self.height);
                assert(y * self.width + x < self.width * self.height) by (nonlinear_arith)
                    requires
                        0 <= x < self.width,
                        0 <= y < self.height,
                ;
                assert(0 <= y * self.width) by (nonlinear_arith)
                    requires
                        0 <= y,
                ;
                assert(y * self.width + x < n);
            }
            let idx = x as usize + y as usize * self.width as usize;
            self.tiles[idx]
        } else {
            None
        }
    }
}

/// The tile at `(x, y)` among positioned tiles: the first one placed
/// there.
pub open spec fn tile_placed_at(tiles: Seq<((i32, i32), LayerTileData)>, x: int, y: int) -> Option<
    LayerTileData,
>
    decreases tiles.len(),
{
    if tiles.len() == 0 {
        None
    } else if tiles[0].0.0 == x && tiles[0].0.1 == y {
        Some(tiles[0].1)
    } else {
        tile_placed_at(tiles.drop_first(), x, y)
    }
}

/// A tile layer without bounds: the tiles it holds, each with its
/// position (which may be negative).
#[derive(Debug)]
pub struct InfiniteTileLayer {
    pub tiles: Vec<((i32, i32), LayerTileData)>,
}

impl InfiniteTileLayer {
    /// The tile at `(x, y)`, if there is one.
    pub open spec fn cell_at(self, x: int, y: int) -> Option<LayerTileData> {
        tile_placed_at(self.tiles@, x, y)
    }

    /// The tile at `(x, y)`, or `None` for an empty position.
    pub fn get_tile_data(&self, x: i32, y: i32) -> (r: Option<LayerTileData>)
        ensures
            r == self.cell_at(x as int, y as int),
    {
        let mut i: usize = 0;
        proof {
            assert(self.tiles@.skip(0) =~= self.tiles@);
        }
        while i < self.tiles.len()
            invariant
                i <= self.tiles@.len(),
                tile_placed_at(self.tiles@, x as int, y as int) == tile_placed_at(
                    self.tiles@.skip(i as int),
                    x as int,
                    y as int,
                ),
            decreases self.tiles@.len() - i,
        {
            proof {
                assert(self.tiles@.skip(i as int).drop_first() =~= self.tiles@.skip(i + 1));
            }
            let (pos, tile) = self.tiles[i];
            if pos.0 == x && pos.1 == y {
                return Some(tile);
            }
            i = i + 1;
        }
        None
    }
}

/// What a layer holds.
#[derive(Debug)]
pub enum LayerKind {
    FiniteTiles(FiniteTileLayer),
    InfiniteTiles(InfiniteTileLayer),
    Objects,
    Image,
    Group(Vec<Layer>),
}

/// A layer of the map.
#[derive(Debug)]
pub struct Layer {
    /// The layer's id, unique within the map.
    pub id: u32,
    pub name: String,
    pub kind: LayerKind,
}

/// A map read from a `tiled` file.
#[derive(Debug)]
pub struct MapData {
    /// The width of the map in tiles.
    pub width: u32,
    /// The height of the map in tiles.
    pub height: u32,
    /// The top-level layers, in order.
    pub layers: Vec<Layer>,
    pub tilesets: Vec<TilesetData>,
}

} // verus!
