//! The images a map's tilesets are drawn from: one image per tileset, or
//! one per tile; the images to load, and how the editor's tile ids map to
//! the textures of each tileset.

use vstd::prelude::*;
use std::collections::HashMap;
use crate::anim::TilesetIndexing;
use crate::level::last_with_key;
use crate::tilemap::{MapData, TileData, TilesetData};

verus! {

/// Where a tileset's images are.
#[derive(Debug, Clone)]
pub enum TiledTileset {
    /// The tileset is a single image.
    Image(String),
    /// Each tile has an image of its own: the tiles' ids with the paths of
    /// their images, in order.
    ImageCollection(Vec<(u32, String)>),
}

/// `TiledTileset` with its paths as sequences.
pub enum TiledTilesetV {
    Image(Seq<char>),
    ImageCollection(Seq<(u32, Seq<char>)>),
}

impl View for TiledTileset {
    type V = TiledTilesetV;

    open spec fn view(&self) -> TiledTilesetV {
        match self {
            TiledTileset::Image(p) => TiledTilesetV::Image(p@),
            TiledTileset::ImageCollection(c) => TiledTilesetV::ImageCollection(
                c@.map_values(|e: (u32, String)| (e.0, e.1@)),
            ),
        }
    }
}

/// The tiles with images, each with its id and image path, in order.
pub open spec fn tile_images(tiles: Seq<TileData>) -> Seq<(u32, Seq<char>)>
    decreases tiles.len(),
{
    if tiles.len() == 0 {
        Seq::empty()
    } else {
        let rest = tile_images(tiles.drop_last());
        match tiles.last().image {
            Some(p) => rest.push((tiles.last().id, p@)),
            None => rest,
        }
    }
}

/// Where a tileset's images are: its own image, or the images of its
/// tiles.
pub open spec fn spec_tiled_tileset(t: TilesetData) -> TiledTilesetV {
    match t.image {
        Some(p) => TiledTilesetV::Image(p@),
        None => TiledTilesetV::ImageCollection(tile_images(t.tiles@)),
    }
}

/// Where a tileset's images are, with the size of its tiles.
pub fn tiled_tileset(t: &TilesetData) -> (r: ((u32, u32), TiledTileset))
    ensures
        r.0 == (t.tile_width, t.tile_height),
        r.1@ == spec_tiled_tileset(*t),
{
    let kind = match &t.image {
        Some(p) => TiledTileset::Image(p.clone()),
        None => {
            let mut c: Vec<(u32, String)> = Vec::new();
            let mut i: usize = 0;
            while i < t.tiles.len()
                invariant
                    i <= t.tiles@.len(),
                    c@.map_values(|e: (u32, String)| (e.0, e.1@)) == tile_images(
                        t.tiles@.take(i as int),
                    ),
                decreases t.tiles@.len() - i,
            {
                proof {
                    assert(t.tiles@.take(i + 1).drop_last() == t.tiles@.take(i as int));
                }
                let ghost before = c@;
                if let Some(p) = &t.tiles[i].image {
                    c.push((t.tiles[i].id, p.clone()));
                    proof {
                        assert(c@.map_values(|e: (u32, String)| (e.0, e.1@)) =~= before.map_values(
                            |e: (u32, String)| (e.0, e.1@),
                        ).push((t.tiles@[i as int].id, p@)));
                    }
                }
                i = i + 1;
            }
            proof {
                assert(t.tiles@.take(i as int) == t.tiles@);
            }
            TiledTileset::ImageCollection(c)
        },
    };
    ((t.tile_width, t.tile_height), kind)
}

/// The tilesets of a map, in order: where the images of each are, with the
/// size of its tiles.
pub fn tiled_tilesets(map: &MapData) -> (r: Vec<((u32, u32), TiledTileset)>)
    ensures
        r@.len() == map.tilesets@.len(),
        forall|i: int|
            0 <= i < r@.len() ==> (#[trigger] r@[i]).0 == (
                map.tilesets@[i].tile_width,
                map.tilesets@[i].tile_height,
            ) && r@[i].1@ == spec_tiled_tileset(map.tilesets@[i]),
{
    let mut out: Vec<((u32, u32), TiledTileset)> = Vec::new();
    let mut i: usize = 0;
    while i < map.tilesets.len()
        invariant
            i <= map.tilesets@.len(),
            out@.len() == i,
            forall|k: int|
                0 <= k < i ==> (#[trigger] out@[k]).0 == (
                    map.tilesets@[k].tile_width,
                    map.tilesets@[k].tile_height,
                ) && out@[k].1@ == spec_tiled_tileset(map.tilesets@[k]),
        decreases map.tilesets@.len() - i,
    {
        out.push(tiled_tileset(&map.tilesets[i]));
        i = i + 1;
    }
    out
}

/// The image paths of a tileset, in order.
pub open spec fn tileset_paths(t: TiledTilesetV) -> Seq<Seq<char>> {
    match t {
        TiledTilesetV::Image(p) => seq![p],
        TiledTilesetV::ImageCollection(c) => c.map_values(|e: (u32, Seq<char>)| e.1),
    }
}

/// The image paths of the first `n` tilesets, in order.
pub open spec fn all_paths(ts: Seq<((u32, u32), TiledTileset)>, n: int) -> Seq<Seq<char>>
    decreases n,
{
    if n <= 0 {
        Seq::empty()
    } else {
        all_paths(ts, n - 1) + tileset_paths(ts[n - 1].1@)
    }
}

/// The images to load for the tilesets, in order: each tileset's image, or
/// the images of its tiles.
pub fn images_to_load(tilesets: &Vec<((u32, u32), TiledTileset)>) -> (r: Vec<String>)
    ensures
        r@.map_values(|s: String| s@) == all_paths(tilesets@, tilesets@.len() as int),
{
    let mut res: Vec<String> = Vec::new();
    let mut i: usize = 0;
    while i < tilesets.len()
        invariant
            i <= tilesets@.len(),
            res@.map_values(|s: String| s@) == all_paths(tilesets@, i as int),
        decreases tilesets@.len() - i,
    {
        let ghost before = res@.map_values(|s: String| s@);
        match &tilesets[i].1 {
            TiledTileset::Image(p) => {
                res.push(p.clone());
                proof {
                    assert(res@.map_values(|s: String| s@) =~= before + seq![p@]);
                }
            },
            TiledTileset::ImageCollection(c) => {
                let mut k: usize = 0;
                while k < c.len()
                    invariant
                        k <= c@.len(),
                        res@.map_values(|s: String| s@) == before + c@.take(k as int).map_values(
                            |e: (u32, String)| e.1@,
                        ),
                    decreases c@.len() - k,
                {
                    let ghost mid = res@;
                    let path = c[k].1.clone();
                    let ghost pv = path@;
                    res.push(path);
                    proof {
                        assert(res@.map_values(|s: String| s@) =~= mid.map_values(|s: String| s@).push(
                            pv,
                        ));
                        assert(c@.take(k + 1).map_values(|e: (u32, String)| e.1@) =~= c@.take(
                            k as int,
                        ).map_values(|e: (u32, String)| e.1@).push(pv));
                        assert(res@.map_values(|s: String| s@) =~= before + c@.take(
                            k + 1,
                        ).map_values(|e: (u32, String)| e.1@));
                    }
                    k = k + 1;
                }
                proof {
                    assert(c@.take(k as int) == c@);
                    assert(c@.map_values(|e: (u32, String)| e.1@) =~= c@.map_values(
                        |e: (u32, String)| (e.0, e.1@),
                    ).map_values(|e: (u32, Seq<char>)| e.1));
                }
            },
        }
        i = i + 1;
    }
    res
}

/// The texture of a tileset: its one image, or the images of its tiles,
/// in order.
#[derive(Debug, Clone)]
pub enum TilemapTexture {
    Single(String),
    Vector(Vec<String>),
}

/// The ids of the tiles with their own images, in order.
pub open spec fn collection_ids(c: Seq<(u32, String)>) -> Seq<u32> {
    c.map_values(|e: (u32, String)| e.0)
}

/// Whether `m` maps each of `ids` to its position (the last, where an id
/// occurs more than once) and nothing else.
pub open spec fn indexes_collection(m: Map<u32, u32>, ids: Seq<u32>) -> bool {
    &&& forall|x: u32| #[trigger] m.contains_key(x) <==> ids.contains(x)
    &&& forall|k: int|
        0 <= k < ids.len() && (forall|j: int| k < j < ids.len() ==> ids[j] != ids[k]) ==> m[#[trigger] ids[k]]
            == k as u32
}

/// Whether `e` is the indexing and texture of tileset `t`.
pub open spec fn indexing_of(t: TiledTileset, e: (TilesetIndexing, TilemapTexture)) -> bool {
    match (t, e) {
        (TiledTileset::Image(p), (TilesetIndexing::Continious, TilemapTexture::Single(q))) => q@
            == p@,
        (TiledTileset::ImageCollection(c), (TilesetIndexing::Special(m), TilemapTexture::Vector(v))) => {
            &&& indexes_collection(m@, collection_ids(c@))
            &&& v@.len() == c@.len()
            &&& forall|k: int| 0 <= k < c@.len() ==> (#[trigger] v@[k])@ == c@[k].1@
        },
        _ => false,
    }
}

/// How the tile ids of each tileset map to its textures, with the texture
/// of each: an image tileset maps ids to themselves; an image collection
/// maps the tile at position `i` to texture `i`.
pub fn tileset_indexing(tilesets: &Vec<((u32, u32), TiledTileset)>) -> (r: Vec<
    (TilesetIndexing, TilemapTexture),
>)
    ensures
        r@.len() == tilesets@.len(),
        forall|i: int| 0 <= i < r@.len() ==> indexing_of(tilesets@[i].1, #[trigger] r@[i]),
{
    let mut out: Vec<(TilesetIndexing, TilemapTexture)> = Vec::new();
    let mut i: usize = 0;
    while i < tilesets.len()
        invariant
            i <= tilesets@.len(),
            out@.len() == i,
            forall|j: int| 0 <= j < i ==> indexing_of(tilesets@[j].1, #[trigger] out@[j]),
        decreases tilesets@.len() - i,
    {
        match &tilesets[i].1 {
            TiledTileset::Image(p) => {
                out.push((TilesetIndexing::Continious, TilemapTexture::Single(p.clone())));
            },
            TiledTileset::ImageCollection(c) => {
                let mut ids: Vec<u32> = Vec::new();
                let mut paths: Vec<String> = Vec::new();
                let mut k: usize = 0;
                while k < c.len()
                    invariant
                        k <= c@.len(),
                        ids@ == collection_ids(c@).take(k as int),
                        paths@.len() == k,
                        forall|j: int| 0 <= j < k ==> (#[trigger] paths@[j])@ == c@[j].1@,
                    decreases c@.len() - k,
                {
                    ids.push(c[k].0);
                    paths.push(c[k].1.clone());
                    proof {
                        assert(ids@ =~= collection_ids(c@).take(k + 1));
                    }
                    k = k + 1;
                }
                proof {
                    assert(ids@ =~= collection_ids(c@));
                }
                let indexing = TilesetIndexing::from_tile_ids(&ids);
                out.push((indexing, TilemapTexture::Vector(paths)));
            },
        }
        i = i + 1;
    }
    out
}


/// The atlas positions of images, keyed by path, as sequences.
pub open spec fn atlas_view(atlas: Seq<(String, usize)>) -> Seq<(Seq<char>, usize)> {
    atlas.map_values(|e: (String, usize)| (e.0@, e.1))
}

/// The atlas position of the image at `path`: the last entry for it.
fn atlas_position(atlas: &Vec<(String, usize)>, path: &String) -> (r: Option<usize>)
    ensures
        r == last_with_key(atlas_view(atlas@), path@),
{
    let mut i: usize = atlas.len();
    proof {
        assert(atlas_view(atlas@).take(i as int) =~= atlas_view(atlas@));
    }
    while i > 0
        invariant
            i <= atlas@.len(),
            last_with_key(atlas_view(atlas@), path@) == last_with_key(
                atlas_view(atlas@).take(i as int),
                path@,
            ),
        decreases i,
    {
        proof {
            assert(atlas_view(atlas@).take(i as int).drop_last() =~= atlas_view(atlas@).take(i - 1));
        }
        if atlas[i - 1].0 == *path {
            return Some(atlas[i - 1].1);
        }
        i = i - 1;
    }
    None
}

/// Whether `m` maps the id of each tile of a collection to the atlas
/// position of the tile's image (for an id given more than once, that of
/// its last entry) and nothing else.
pub open spec fn indexes_atlas(
    m: Map<u32, u32>,
    c: Seq<(u32, Seq<char>)>,
    atlas: Seq<(Seq<char>, usize)>,
) -> bool {
    &&& forall|x: u32| #[trigger] m.contains_key(x) <==> exists|k: int| 0 <= k < c.len() && c[k].0 == x
    &&& forall|k: int|
        0 <= k < c.len() && (forall|j: int| k < j < c.len() ==> c[j].0 != c[k].0) ==> m[#[trigger] c[k].0]
            == (last_with_key(atlas, c[k].1)->0) as u32
}

/// The mapping from the editor's tile ids to the textures of a compiled
/// atlas: an image tileset maps ids to themselves; an image collection
/// maps each tile to the position its image was given in the atlas
/// (`atlas` holds each image's path with its position).
pub fn from_tileset_and_atlas(tileset_info: &TiledTileset, atlas: &Vec<(String, usize)>) -> (r:
    TilesetIndexing)
    requires
        tileset_info matches TiledTileset::ImageCollection(c) ==> forall|k: int|
            0 <= k < c@.len() ==> last_with_key(atlas_view(atlas@), (#[trigger] c@[k]).1@) is Some,
    ensures
        match tileset_info {
            TiledTileset::Image(_) => r is Continious,
            TiledTileset::ImageCollection(c) => r matches TilesetIndexing::Special(m) && indexes_atlas(
                m@,
                c@.map_values(|e: (u32, String)| (e.0, e.1@)),
                atlas_view(atlas@),
            ),
        },
{
    match tileset_info {
        TiledTileset::Image(_) => TilesetIndexing::Continious,
        TiledTileset::ImageCollection(c) => {
            let ghost cv = c@.map_values(|e: (u32, String)| (e.0, e.1@));
            let ghost av = atlas_view(atlas@);
            let mut m: HashMap<u32, u32> = HashMap::new();
            let mut i: usize = 0;
            while i < c.len()
                invariant
                    i <= c@.len(),
                    cv == c@.map_values(|e: (u32, String)| (e.0, e.1@)),
                    av == atlas_view(atlas@),
                    forall|k: int| 0 <= k < c@.len() ==> last_with_key(av, (#[trigger] c@[k]).1@) is Some,
                    forall|x: u32| #[trigger] m@.contains_key(x) <==> exists|k: int| 0 <= k < i && cv[k].0 == x,
                    forall|k: int|
                        0 <= k < i && (forall|j: int| k < j < i ==> cv[j].0 != cv[k].0) ==> m@[#[trigger] cv[k].0]
                            == (last_with_key(av, cv[k].1)->0) as u32,
                decreases c@.len() - i,
            {
                let pos = atlas_position(atlas, &c[i].1).unwrap();
                m.insert(c[i].0, #[verifier::truncate] (pos as u32));
                proof {
                    assert(cv[i as int] == (c@[i as int].0, c@[i as int].1@));
                    assert forall|x: u32| #[trigger] m@.contains_key(x) <==> exists|k: int| 0 <= k < i + 1 && cv[k].0 == x by {
                        if x == cv[i as int].0 {
                            assert(0 <= i < i + 1 && cv[i as int].0 == x);
                        }
                    }
                }
                i = i + 1;
            }
            TilesetIndexing::Special(m)
        },
    }
}

/// The state of a tileset's texture.
#[derive(Debug)]
pub enum TilesetState {
    /// Loaded and ready: the texture, and the images it was made from.
    Ready { handle: usize, origin: Vec<String> },
    /// Not loaded yet; one atlas image.
    ImageAtlas { tile_size: (u32, u32), image: String },
    /// Not loaded yet; one image per tile, by tile id.
    ImageCollection { tile_size: (u32, u32), collection: Vec<(u32, String)> },
}

impl TilesetState {
    /// The texture of a tileset that is ready.
    pub fn ready_image(&self) -> (r: usize)
        requires
            self is Ready,
        ensures
            self matches TilesetState::Ready { handle, .. } && r == handle,
    {
        match self {
            TilesetState::Ready { handle, .. } => *handle,
            _ => 0,
        }
    }
}


/// How the texture atlas of a tileset is made.
#[derive(Debug)]
pub enum AtlasPlan {
    /// Cut from the tileset's image in a grid of `columns` by `rows` tiles
    /// of `tile_size`.
    Grid { image: String, tile_size: (u32, u32), columns: u32, rows: u32 },
    /// Stacked from the tiles' images into one column, `size` in all.
    Stack { size: (u32, u128), images: Vec<String> },
}

/// How the atlases of the tilesets are made: an image tileset is cut in as
/// many whole tiles as fit in its image (whose size is given by
/// `image_sizes`, in the order of the image tilesets); the tiles' images
/// of a collection are stacked in a column one tile wide.
pub fn atlas_plan(tilesets: &Vec<((u32, u32), TiledTileset)>, image_sizes: &Vec<(u32, u32)>) -> (r:
    Vec<AtlasPlan>)
    requires
        forall|i: int|
            0 <= i < tilesets@.len() ==> (#[trigger] tilesets@[i]).0.0 > 0 && tilesets@[i].0.1 > 0,
        image_sizes@.len() == tilesets@.len(),
    ensures
        r@.len() == tilesets@.len(),
        forall|i: int|
            0 <= i < r@.len() ==> match (tilesets@[i], #[trigger] r@[i]) {
                (((tw, th), TiledTileset::Image(p)), AtlasPlan::Grid { image, tile_size, columns, rows }) => {
                    &&& image@ == p@
                    &&& tile_size == (tw, th)
                    &&& columns == image_sizes@[i].0 / tw
                    &&& rows == image_sizes@[i].1 / th
                },
                (((tw, th), TiledTileset::ImageCollection(c)), AtlasPlan::Stack { size, images }) => {
                    &&& size == (tw, (th * c@.len()) as u128)
                    &&& images@.len() == c@.len()
                    &&& forall|k: int| 0 <= k < c@.len() ==> (#[trigger] images@[k])@ == c@[k].1@
                },
                _ => false,
            },
{
    let mut out: Vec<AtlasPlan> = Vec::new();
    let mut i: usize = 0;
    while i < tilesets.len()
        invariant
            i <= tilesets@.len(),
            image_sizes@.len() == tilesets@.len(),
            forall|k: int|
                0 <= k < tilesets@.len() ==> (#[trigger] tilesets@[k]).0.0 > 0 && tilesets@[k].0.1 > 0,
            out@.len() == i,
            forall|j: int|
                0 <= j < i ==> match (tilesets@[j], #[trigger] out@[j]) {
                    (
                        ((tw, th), TiledTileset::Image(p)),
                        AtlasPlan::Grid { image, tile_size, columns, rows },
                    ) => {
                        &&& image@ == p@
                        &&& tile_size == (tw, th)
                        &&& columns == image_sizes@[j].0 / tw
                        &&& rows == image_sizes@[j].1 / th
                    },
                    (((tw, th), TiledTileset::ImageCollection(c)), AtlasPlan::Stack { size, images }) => {
                        &&& size == (tw, (th * c@.len()) as u128)
                        &&& images@.len() == c@.len()
                        &&& forall|k: int| 0 <= k < c@.len() ==> (#[trigger] images@[k])@ == c@[k].1@
                    },
                    _ => false,
                },
        decreases tilesets@.len() - i,
    {
        let (tw, th) = tilesets[i].0;
        match &tilesets[i].1 {
            TiledTileset::Image(p) => {
                let (iw, ih) = image_sizes[i];
                out.push(
                    AtlasPlan::Grid {
                        image: p.clone(),
                        tile_size: (tw, th),
                        columns: iw / tw,
                        rows: ih / th,
                    },
                );
            },
            TiledTileset::ImageCollection(c) => {
                let mut images: Vec<String> = Vec::new();
                let mut k: usize = 0;
                while k < c.len()
                    invariant
                        k <= c@.len(),
                        images@.len() == k,
                        forall|j: int| 0 <= j < k ==> (#[trigger] images@[j])@ == c@[j].1@,
                    decreases c@.len() - k,
                {
                    images.push(c[k].1.clone());
                    k = k + 1;
                }
                assert((th as u128) * (c.len() as u128) <= 0xffff_ffff * 0xffff_ffff_ffff_ffff)
                    by (nonlinear_arith)
                    requires
                        th <= 0xffff_ffff,
                        c@.len() <= 0xffff_ffff_ffff_ffff,
                ;
                out.push(
                    AtlasPlan::Stack { size: (tw, (th as u128) * (c.len() as u128)), images },
                );
            },
        }
        i = i + 1;
    }
    out
}

} // verus!
