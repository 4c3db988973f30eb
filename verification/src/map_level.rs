//! A map shown as it is drawn in the editor: one layer of the tilemap for
//! each tileset and each layer of the map, holding the layer's tiles of
//! that tileset, with the tags of the special tiles.

use vstd::prelude::*;
use crate::layers::{placed, find_first_named, first_named, is_first_named};
use crate::level::last_with_key;
use crate::tilemap::{LayerKind, LayerTileData, MapData, TileData, wrap_i32};

verus! {

/// The tags a placed tile gets from its tile type.
#[derive(Debug, Clone, Copy, PartialEq, Eq, Structural)]
pub struct SpawnTags {
    pub start: bool,
    pub end: bool,
    pub solid: bool,
}

/// A tile placed on a layer of the tilemap.
#[derive(Debug, Clone, Copy)]
pub struct PlacedTile {
    /// The column.
    pub x: u32,
    /// The row, counted from the bottom.
    pub y: u32,
    /// The texture: the tile's id, truncated to 16 bits.
    pub texture: u16,
    pub flip_x: bool,
    pub flip_y: bool,
    pub flip_d: bool,
    pub tags: SpawnTags,
}

/// The tiles of one tileset on one layer of the map.
#[derive(Debug)]
pub struct LayerSpawn {
    pub tileset_index: usize,
    pub layer_index: usize,
    pub tiles: Vec<PlacedTile>,
}

/// The tags of a tile with data of the given type: the player's start is
/// solid too, the end is not, any other tile is solid.
pub open spec fn spec_tags_of(tile_type: Option<Seq<char>>) -> SpawnTags {
    if tile_type == Some("player_start"@) {
        SpawnTags { start: true, end: false, solid: true }
    } else if tile_type == Some("player_end"@) {
        SpawnTags { start: false, end: true, solid: false }
    } else {
        SpawnTags { start: false, end: false, solid: true }
    }
}

/// The data of the last tile of the list with the given id.
pub open spec fn tile_data_of(tiles: Seq<TileData>, id: u32) -> Option<TileData>
    decreases tiles.len(),
{
    if tiles.len() == 0 {
        None
    } else if tiles.last().id == id {
        Some(tiles.last())
    } else {
        tile_data_of(tiles.drop_last(), id)
    }
}

/// The type of a tile, as text.
pub open spec fn type_text(t: TileData) -> Option<Seq<char>> {
    match t.tile_type {
        Some(s) => Some(s@),
        None => None,
    }
}

/// The tags of the tile with the given id in a tileset: none where the
/// tileset holds no data for it.
pub open spec fn spec_tile_tags(tiles: Seq<TileData>, id: u32) -> SpawnTags {
    match tile_data_of(tiles, id) {
        Some(t) => spec_tags_of(type_text(t)),
        None => SpawnTags { start: false, end: false, solid: false },
    }
}

/// The position of the last tile of the list with the given id.
fn find_tile_data(tiles: &Vec<TileData>, id: u32) -> (r: Option<usize>)
    ensures
        r matches Some(i) ==> i < tiles@.len() && tile_data_of(tiles@, id) == Some(tiles@[i as int]),
        r is None ==> tile_data_of(tiles@, id) is None,
{
    let mut i: usize = tiles.len();
    proof {
        assert(tiles@.take(i as int) == tiles@);
    }
    while i > 0
        invariant
            i <= tiles@.len(),
            tile_data_of(tiles@, id) == tile_data_of(tiles@.take(i as int), id),
        decreases i,
    {
        proof {
            assert(tiles@.take(i as int).drop_last() == tiles@.take(i - 1));
        }
        if tiles[i - 1].id == id {
            return Some(i - 1);
        }
        i = i - 1;
    }
    None
}

/// The tags of the tile with the given id in a tileset.
pub fn tile_tags(tiles: &Vec<TileData>, id: u32) -> (r: SpawnTags)
    ensures
        r == spec_tile_tags(tiles@, id),
{
    match find_tile_data(tiles, id) {
        Some(i) => match &tiles[i].tile_type {
            Some(t) => if *t == "player_start".to_owned() {
                SpawnTags { start: true, end: false, solid: true }
            } else if *t == "player_end".to_owned() {
                SpawnTags { start: false, end: true, solid: false }
            } else {
                SpawnTags { start: false, end: false, solid: true }
            },
            None => SpawnTags { start: false, end: false, solid: true },
        },
        None => SpawnTags { start: false, end: false, solid: false },
    }
}

/// The tile at column `x` and row `y` of a tile layer of a `w` by `h` map,
/// finite or not; none on other layers.
pub open spec fn layer_tile_at(kind: LayerKind, w: u32, h: u32, x: u32, y: u32) -> Option<
    LayerTileData,
> {
    match kind {
        LayerKind::FiniteTiles(f) => placed(f, w, h, x as int, y as int),
        LayerKind::InfiniteTiles(i) => if x < w && y < h {
            i.cell_at(wrap_i32(x), wrap_i32(y))
        } else {
            None
        },
        _ => None,
    }
}

/// Whether a layer holds tiles.
pub open spec fn is_tile_layer(kind: LayerKind) -> bool {
    kind is FiniteTiles || kind is InfiniteTiles
}

/// The tile of tileset `t` at column `x` and row `y` of layer `l`, placed
/// with its row counted from the bottom.
pub open spec fn spec_placed_tile(map: MapData, t: int, l: int, x: u32, y: u32) -> Option<
    PlacedTile,
> {
    match layer_tile_at(map.layers@[l].kind, map.width, map.height, x, y) {
            Some(tile) => if tile.tileset_index != t {
                None
            } else {
                Some(
                    PlacedTile {
                        x,
                        y: (map.height - 1 - y) as u32,
                        texture: tile.id as u16,
                        flip_x: tile.flip_h,
                        flip_y: tile.flip_v,
                        flip_d: tile.flip_d,
                        tags: spec_tile_tags(map.tilesets@[t].tiles@, tile.id),
                    },
                )
            },
            None => None,
    }
}

/// The tiles of tileset `t` on layer `l` in the columns before `x`, and in
/// the first `y` rows of column `x`, in that order.
pub open spec fn placed_scan(map: MapData, t: int, l: int, x: int, y: int) -> Seq<PlacedTile>
    decreases x, y,
{
    if y <= 0 {
        if x <= 0 {
            Seq::empty()
        } else {
            placed_scan(map, t, l, x - 1, map.height as int)
        }
    } else {
        let done = placed_scan(map, t, l, x, y - 1);
        match spec_placed_tile(map, t, l, x as u32, (y - 1) as u32) {
            None => done,
            Some(p) => done.push(p),
        }
    }
}

/// The first layer of a name is the one `first_named` gives, and where
/// there is none, no layer has that name.
proof fn lemma_first_named_is(layers: Seq<crate::tilemap::Layer>, name: Seq<char>)
    ensures
        first_named(layers, name) matches Some(k) ==> is_first_named(layers, name, k),
        first_named(layers, name) is None ==> forall|j: int|
            0 <= j < layers.len() ==> layers[j].name@ != name,
{
    if first_named(layers, name) is None {
        assert forall|j: int| 0 <= j < layers.len() implies layers[j].name@ != name by {
            if layers[j].name@ == name {
                // The first layer of that name comes at or before `j`.
                let k = choose_first(layers, name, j);
                assert(is_first_named(layers, name, k));
            }
        }
    }
}

/// The first position up to `j` of a layer named `name`, where the layer
/// at `j` has that name.
proof fn choose_first(layers: Seq<crate::tilemap::Layer>, name: Seq<char>, j: int) -> (k: int)
    requires
        0 <= j < layers.len(),
        layers[j].name@ == name,
    ensures
        is_first_named(layers, name, k),
    decreases j,
{
    if exists|q: int| 0 <= q < j && layers[q].name@ == name {
        let q = choose|q: int| 0 <= q < j && layers[q].name@ == name;
        choose_first(layers, name, q)
    } else {
        j
    }
}

/// A map with the atlas of each of its tilesets.
#[derive(Debug)]
pub struct Level {
    pub map: MapData,
    /// The atlas of each tileset, by the tileset's index.
    pub tilesets: Vec<(usize, usize)>,
}

impl Level {
    pub fn new(map: MapData, tilesets: Vec<(usize, usize)>) -> (r: Self)
        ensures
            r.map == map,
            r.tilesets == tilesets,
    {
        Level { map, tilesets }
    }

    /// The id of the first top-level layer named `geometry`.
    pub fn find_geometry_layer_id(&self) -> (r: Option<usize>)
        ensures
            r matches Some(i) ==> exists|k: int|
                0 <= k < self.map.layers@.len() && self.map.layers@[k].name@ == "geometry"@ && (
                forall|j: int| 0 <= j < k ==> self.map.layers@[j].name@ != "geometry"@) && i
                    == self.map.layers@[k].id,
            r is None ==> forall|k: int|
                0 <= k < self.map.layers@.len() ==> self.map.layers@[k].name@ != "geometry"@,
    {
        proof {
            reveal_strlit("geometry");
        }
        match find_first_named(&self.map.layers, "geometry") {
            Some(i) => {
                proof {
                    lemma_first_named_is(self.map.layers@, "geometry"@);
                }
                Some(self.map.layers[i].id as usize)
            },
            None => {
                proof {
                    lemma_first_named_is(self.map.layers@, "geometry"@);
                }
                None
            },
        }
    }

    /// The position of the first top-level layer named `geometry`,
    /// truncated to 16 bits.
    pub fn find_geometry_layer(&self) -> (r: Option<u16>)
        ensures
            r matches Some(i) ==> exists|k: int|
                0 <= k < self.map.layers@.len() && self.map.layers@[k].name@ == "geometry"@ && (
                forall|j: int| 0 <= j < k ==> self.map.layers@[j].name@ != "geometry"@) && i
                    == k as u16,
            r is None ==> forall|k: int|
                0 <= k < self.map.layers@.len() ==> self.map.layers@[k].name@ != "geometry"@,
    {
        proof {
            reveal_strlit("geometry");
        }
        match find_first_named(&self.map.layers, "geometry") {
            Some(i) => {
                proof {
                    lemma_first_named_is(self.map.layers@, "geometry"@);
                }
                Some(#[verifier::truncate] (i as u16))
            },
            None => {
                proof {
                    lemma_first_named_is(self.map.layers@, "geometry"@);
                }
                None
            },
        }
    }

    /// The layers of the tilemap: for each tileset in order, and each
    /// layer of the map in order (finite or infinite tile layers; a map
    /// with cells holds no other kind), the layer's tiles of that tileset,
    /// column by column and each column from its first row, with their
    /// rows counted from the bottom.
    pub fn spawn_map(&self) -> (r: Vec<LayerSpawn>)
        requires
            self.map.width == 0 || self.map.height == 0 || forall|l: int|
                0 <= l < self.map.layers@.len() ==> is_tile_layer((#[trigger] self.map.layers@[l]).kind),
        ensures
            r@.len() == self.map.tilesets@.len() * self.map.layers@.len(),
            forall|k: int|
                0 <= k < r@.len() ==> (#[trigger] r@[k]).tileset_index == k / (
                self.map.layers@.len() as int) && r@[k].layer_index == k % (
                self.map.layers@.len() as int) && r@[k].tiles@ == placed_scan(
                    self.map,
                    k / (self.map.layers@.len() as int),
                    k % (self.map.layers@.len() as int),
                    self.map.width as int,
                    0,
                ),
    {
        let map = &self.map;
        let nl = map.layers.len();
        let mut out: Vec<LayerSpawn> = Vec::new();
        let mut t: usize = 0;
        while t < map.tilesets.len()
            invariant
                t <= map.tilesets@.len(),
                nl == map.layers@.len(),
                map == self.map,
                self.map.width == 0 || self.map.height == 0 || forall|l: int|
                    0 <= l < self.map.layers@.len() ==> is_tile_layer((#[trigger] self.map.layers@[l]).kind),
                out@.len() == t * nl,
                forall|k: int|
                    0 <= k < out@.len() ==> (#[trigger] out@[k]).tileset_index == k / (nl as int)
                        && out@[k].layer_index == k % (nl as int) && out@[k].tiles@ == placed_scan(
                        *map,
                        k / (nl as int),
                        k % (nl as int),
                        map.width as int,
                        0,
                    ),
            decreases map.tilesets@.len() - t,
        {
            let mut l: usize = 0;
            while l < nl
                invariant
                    t < map.tilesets@.len(),
                    l <= nl,
                    nl == map.layers@.len(),
                    map == self.map,
                    self.map.width == 0 || self.map.height == 0 || forall|j: int|
                        0 <= j < self.map.layers@.len() ==> is_tile_layer((#[trigger] self.map.layers@[j]).kind),
                    out@.len() == t * nl + l,
                    forall|k: int|
                        0 <= k < out@.len() ==> (#[trigger] out@[k]).tileset_index == k / (nl as int)
                            && out@[k].layer_index == k % (nl as int) && out@[k].tiles@
                            == placed_scan(*map, k / (nl as int), k % (nl as int), map.width as int, 0),
                decreases nl - l,
            {
                let tiles = self.layer_tiles(t, l);
                proof {
                    let k = (t * nl + l) as int;
                    assert(k / (nl as int) == t && k % (nl as int) == l) by (nonlinear_arith)
                        requires
                            k == t * nl + l,
                            0 <= l < nl,
                    ;
                }
                out.push(LayerSpawn { tileset_index: t, layer_index: l, tiles });
                l = l + 1;
            }
            proof {
                assert((t + 1) * nl == t * nl + nl) by (nonlinear_arith);
            }
            t = t + 1;
        }
        out
    }

    /// The tiles of tileset `t` on layer `l`.
    fn layer_tiles(&self, t: usize, l: usize) -> (r: Vec<PlacedTile>)
        requires
            t < self.map.tilesets@.len(),
            l < self.map.layers@.len(),
            self.map.width == 0 || self.map.height == 0 || is_tile_layer(self.map.layers@[l as int].kind),
        ensures
            r@ == placed_scan(self.map, t as int, l as int, self.map.width as int, 0),
    {
        let map = &self.map;
        let w = map.width;
        let h = map.height;
        let mut tiles: Vec<PlacedTile> = Vec::new();
        let mut x: u32 = 0;
        while x < w
            invariant
                x <= w,
                w == self.map.width,
                h == self.map.height,
                map == self.map,
                t < self.map.tilesets@.len(),
                l < self.map.layers@.len(),
                self.map.width == 0 || self.map.height == 0 || is_tile_layer(self.map.layers@[l as int].kind),
                tiles@ == placed_scan(*map, t as int, l as int, x as int, 0),
            decreases w - x,
        {
            let mut y: u32 = 0;
            while y < h
                invariant
                    x < w,
                    y <= h,
                    w == self.map.width,
                    h == self.map.height,
                    map == self.map,
                    t < self.map.tilesets@.len(),
                    l < self.map.layers@.len(),
                    tiles@ == placed_scan(*map, t as int, l as int, x as int, y as int),
                decreases h - y,
            {
                match &map.layers[l].kind {
                    LayerKind::FiniteTiles(f) => {
                        let cell = f.get_tile_data(
                            crate::tilemap::to_i32_wrapping(x),
                            crate::tilemap::to_i32_wrapping(y),
                        );
                        if let Some(tile) = cell {
                            if tile.tileset_index == t {
                                let tags = tile_tags(&map.tilesets[t].tiles, tile.id);
                                tiles.push(
                                    PlacedTile {
                                        x,
                                        y: h - 1 - y,
                                        texture: #[verifier::truncate] (tile.id as u16),
                                        flip_x: tile.flip_h,
                                        flip_y: tile.flip_v,
                                        flip_d: tile.flip_d,
                                        tags,
                                    },
                                );
                            }
                        }
                    },
                    LayerKind::InfiniteTiles(inf) => {
                        let cell = inf.get_tile_data(
                            crate::tilemap::to_i32_wrapping(x),
                            crate::tilemap::to_i32_wrapping(y),
                        );
                        if let Some(tile) = cell {
                            if tile.tileset_index == t {
                                let tags = tile_tags(&map.tilesets[t].tiles, tile.id);
                                tiles.push(
                                    PlacedTile {
                                        x,
                                        y: h - 1 - y,
                                        texture: #[verifier::truncate] (tile.id as u16),
                                        flip_x: tile.flip_h,
                                        flip_y: tile.flip_v,
                                        flip_d: tile.flip_d,
                                        tags,
                                    },
                                );
                            }
                        }
                    },
                    _ => {},
                }
                y = y + 1;
            }
            x = x + 1;
        }
        tiles
    }
}

} // verus!
