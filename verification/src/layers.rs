//! Looking up the layers of a map by name, and the tileset a tile layer
//! draws from.

use vstd::prelude::*;
use crate::tilemap::{Layer, LayerKind, FiniteTileLayer, LayerTileData, wrap_i32, to_i32_wrapping};

verus! {

/// Whether `i` is the position of the first layer named `name`.
pub open spec fn is_first_named(layers: Seq<Layer>, name: Seq<char>, i: int) -> bool {
    &&& 0 <= i < layers.len()
    &&& layers[i].name@ == name
    &&& forall|j: int| 0 <= j < i ==> layers[j].name@ != name
}

/// The position of the first layer named `name`, if there is one.
pub open spec fn first_named(layers: Seq<Layer>, name: Seq<char>) -> Option<int> {
    if exists|i: int| is_first_named(layers, name, i) {
        Some(choose|i: int| is_first_named(layers, name, i))
    } else {
        None
    }
}

/// There is at most one first layer of a name.
pub proof fn lemma_first_named_unique(layers: Seq<Layer>, name: Seq<char>, i: int, k: int)
    requires
        is_first_named(layers, name, i),
        is_first_named(layers, name, k),
    ensures
        i == k,
{
    if i < k {
        assert(layers[i].name@ != name);
    } else if k < i {
        assert(layers[k].name@ != name);
    }
}

/// The position of the first layer named `name`.
pub fn find_first_named(layers: &Vec<Layer>, name: &str) -> (r: Option<usize>)
    ensures
        r matches Some(i) ==> first_named(layers@, name@) == Some(i as int),
        r is None ==> first_named(layers@, name@) is None,
{
    let key = name.to_owned();
    let mut i: usize = 0;
    while i < layers.len()
        invariant
            i <= layers@.len(),
            key@ == name@,
            forall|j: int| 0 <= j < i ==> layers@[j].name@ != name@,
        decreases layers@.len() - i,
    {
        if layers[i].name == key {
            proof {
                assert(is_first_named(layers@, name@, i as int));
                let k = choose|k: int| is_first_named(layers@, name@, k);
                lemma_first_named_unique(layers@, name@, i as int, k);
            }
            return Some(i);
        }
        i = i + 1;
    }
    proof {
        assert(forall|k: int| !is_first_named(layers@, name@, k));
    }
    None
}

/// The sublayers of the first layer named `name`, if that layer is a
/// group layer.
pub open spec fn spec_group_layer(layers: Seq<Layer>, name: Seq<char>) -> Option<Vec<Layer>> {
    match first_named(layers, name) {
        Some(i) => match layers[i].kind {
            LayerKind::Group(g) => Some(g),
            _ => None,
        },
        None => None,
    }
}

/// The first layer named `name`, if that layer is a finite tile layer.
pub open spec fn spec_finite_tile_layer(layers: Seq<Layer>, name: Seq<char>) -> Option<
    FiniteTileLayer,
> {
    match first_named(layers, name) {
        Some(i) => match layers[i].kind {
            LayerKind::FiniteTiles(l) => Some(l),
            _ => None,
        },
        None => None,
    }
}

/// The sublayers of the first layer named `name`; `None` where there is
/// no such layer or it is not a group layer.
pub fn group_layer<'a>(layers: &'a Vec<Layer>, name: &str) -> (r: Option<&'a Vec<Layer>>)
    ensures
        r matches Some(g) ==> spec_group_layer(layers@, name@) == Some(*g),
        r is None ==> spec_group_layer(layers@, name@) is None,
{
    match find_first_named(layers, name) {
        Some(i) => match &layers[i].kind {
            LayerKind::Group(g) => Some(g),
            _ => None,
        },
        None => None,
    }
}

/// The first layer named `name`; `None` where there is no such layer or
/// it is not a finite tile layer.
pub fn finite_tile_layer<'a>(layers: &'a Vec<Layer>, name: &str) -> (r: Option<
    &'a FiniteTileLayer,
>)
    ensures
        r matches Some(l) ==> spec_finite_tile_layer(layers@, name@) == Some(*l),
        r is None ==> spec_finite_tile_layer(layers@, name@) is None,
{
    match find_first_named(layers, name) {
        Some(i) => match &layers[i].kind {
            LayerKind::FiniteTiles(l) => Some(l),
            _ => None,
        },
        None => None,
    }
}

/// Why a tile layer does not draw from exactly one tileset.
#[derive(Debug, Clone, Copy, PartialEq, Eq, Structural)]
pub enum TilesetError {
    /// Tiles of two different tilesets are placed on the layer.
    MoreThanOne,
    /// No tile is placed on the layer.
    NoTileset,
}

/// The tile at column `x` and row `y` of a layer of a `w` by `h` map, as
/// the map's columns and rows are visited (each coordinate read as a
/// signed number).
pub open spec fn placed(layer: FiniteTileLayer, w: u32, h: u32, x: int, y: int) -> Option<
    LayerTileData,
> {
    if 0 <= x < w && 0 <= y < h {
        layer.cell_at(wrap_i32(x as u32), wrap_i32(y as u32))
    } else {
        None
    }
}

/// Whether two tiles of different tilesets are placed on the layer.
pub open spec fn mixes_tilesets(layer: FiniteTileLayer, w: u32, h: u32) -> bool {
    exists|x1: int, y1: int, x2: int, y2: int|
        #![trigger placed(layer, w, h, x1, y1), placed(layer, w, h, x2, y2)]
        placed(layer, w, h, x1, y1) matches Some(a) && placed(layer, w, h, x2, y2) matches Some(b)
            && a.tileset_index != b.tileset_index
}

/// Whether some tile is placed on the layer.
pub open spec fn has_tiles(layer: FiniteTileLayer, w: u32, h: u32) -> bool {
    exists|x: int, y: int| #[trigger] placed(layer, w, h, x, y) is Some
}

/// Whether every tile placed on the layer is of tileset `t`.
pub open spec fn all_of_tileset(layer: FiniteTileLayer, w: u32, h: u32, t: usize) -> bool {
    forall|x: int, y: int| #[trigger]
        placed(layer, w, h, x, y) matches Some(a) ==> a.tileset_index == t
}

/// The one tileset the layer draws from.
pub open spec fn spec_unique_tileset(layer: FiniteTileLayer, w: u32, h: u32) -> Result<
    usize,
    TilesetError,
> {
    if mixes_tilesets(layer, w, h) {
        Err(TilesetError::MoreThanOne)
    } else if has_tiles(layer, w, h) {
        Ok(choose|t: usize| all_of_tileset(layer, w, h, t))
    } else {
        Err(TilesetError::NoTileset)
    }
}

/// Whether `(x, y)` comes before `(cx, cy)` when the columns are visited in
/// order and each column from its first row.
pub open spec fn visited_before(x: int, y: int, cx: int, cy: int) -> bool {
    x < cx || (x == cx && y < cy)
}

/// The tileset that the tiles on a layer of a `width` by `height` map are
/// from; an error where tiles of two tilesets are placed on it, or none.
pub fn ensure_unique_tileset(layer: &FiniteTileLayer, width: u32, height: u32) -> (r: Result<
    usize,
    TilesetError,
>)
    ensures
        r == spec_unique_tileset(*layer, width, height),
        r matches Ok(t) ==> all_of_tileset(*layer, width, height, t) && has_tiles(
            *layer,
            width,
            height,
        ),
{
    let ghost w = width;
    let ghost h = height;
    let mut result: Option<usize> = None;
    // Where the first tile was found.
    let ghost mut fx: int = 0;
    let ghost mut fy: int = 0;
    let mut x: u32 = 0;
    while x < width
        invariant
            x <= width,
            result is None ==> forall|px: int, py: int|
                visited_before(px, py, x as int, 0) ==> (#[trigger] placed(*layer, w, h, px, py))
                    is None,
            result matches Some(t) ==> (visited_before(fx, fy, x as int, 0) && (placed(
                *layer,
                w,
                h,
                fx,
                fy,
            ) matches Some(a) && a.tileset_index == t)),
            result matches Some(t) ==> forall|px: int, py: int|
                visited_before(px, py, x as int, 0) ==> (#[trigger] placed(*layer, w, h, px, py)
                    matches Some(a) ==> a.tileset_index == t),
            w == width,
            h == height,
        decreases width - x,
    {
        let mut y: u32 = 0;
        while y < height
            invariant
                x < width,
                y <= height,
                result is None ==> forall|px: int, py: int|
                    visited_before(px, py, x as int, y as int) ==> (#[trigger] placed(
                        *layer,
                        w,
                        h,
                        px,
                        py,
                    )) is None,
                result matches Some(t) ==> (visited_before(fx, fy, x as int, y as int) && (placed(
                    *layer,
                    w,
                    h,
                    fx,
                    fy,
                ) matches Some(a) && a.tileset_index == t)),
                result matches Some(t) ==> forall|px: int, py: int|
                    visited_before(px, py, x as int, y as int) ==> (#[trigger] placed(
                        *layer,
                        w,
                        h,
                        px,
                        py,
                    ) matches Some(a) ==> a.tileset_index == t),
                w == width,
                h == height,
            decreases height - y,
        {
            let tile = layer.get_tile_data(to_i32_wrapping(x), to_i32_wrapping(y));
            proof {
                assert(tile == placed(*layer, w, h, x as int, y as int));
            }
            if let Some(t) = tile {
                match result {
                    Some(prev) => {
                        if prev != t.tileset_index {
                            proof {
                                assert(placed(*layer, w, h, fx, fy) is Some);
                                assert(mixes_tilesets(*layer, w, h));
                            }
                            return Err(TilesetError::MoreThanOne);
                        }
                    },
                    None => {
                        result = Some(t.tileset_index);
                        proof {
                            fx = x as int;
                            fy = y as int;
                        }
                    },
                }
            }
            y = y + 1;
        }
        x = x + 1;
    }
    proof {
        assert forall|px: int, py: int| #[trigger]
            placed(*layer, w, h, px, py) is Some implies visited_before(px, py, x as int, 0) by {}
    }
    match result {
        Some(t) => {
            proof {
                assert(all_of_tileset(*layer, w, h, t));
                assert(placed(*layer, w, h, fx, fy) is Some);
                assert(has_tiles(*layer, w, h));
                assert(!mixes_tilesets(*layer, w, h));
                let c = choose|c: usize| all_of_tileset(*layer, w, h, c);
                assert(placed(*layer, w, h, fx, fy)->0.tileset_index == c);
            }
            Ok(t)
        },
        None => {
            proof {
                assert(!has_tiles(*layer, w, h));
                assert(!mixes_tilesets(*layer, w, h));
            }
            Err(TilesetError::NoTileset)
        },
    }
}

} // verus!
