//! Turning a map into the scene it is shown as: the layers, in order and
//! nested as in the map, each tile layer with the tiles to place on it,
//! while a user-provided builder is told about each tileset, tile and
//! finished layer.

use vstd::prelude::*;
use crate::anim::TilesetIndexing;
use crate::layers::{TilesetError, placed, spec_unique_tileset, ensure_unique_tileset};
use crate::tilemap::{
    FiniteTileLayer, Layer, LayerKind, MapData, TileFlip, TilesetData, to_i32_wrapping,
};

verus! {

/// The most tile layers a map may have.
pub const MAX_TILE_LAYERS: u32 = 100;

/// What the map's user does as the map is visited; each call may fail,
/// which stops the visit.
pub trait TileBuilder {
    /// Called for each tileset, in order, before any layer is visited.
    fn process_tileset(
        &mut self,
        set_id: usize,
        tileset: &TilesetData,
        indexing: &TilesetIndexing,
    ) -> Result<(), String>;

    /// Called for each tile placed, with the tileset it is from.
    fn build(&mut self, set_id: usize, tileset: &TilesetData, id: u32) -> Result<(), String>;

    /// Called after the tiles of a tile layer are placed.
    fn finish_layer(&mut self, set_id: usize, tileset: &TilesetData) -> Result<(), String>;
}

/// A tile placed on a tile layer.
#[derive(Debug, Clone, Copy)]
pub struct TileSpawn {
    /// The column of the tile.
    pub x: u32,
    /// The row of the tile, counted from the bottom.
    pub y: u32,
    /// The tile's id in its tileset.
    pub id: u32,
    /// The tile's texture in the tileset's atlas.
    pub texture: u32,
    pub flip: TileFlip,
}

/// What a node of the scene is.
#[derive(Debug)]
pub enum SceneKind {
    /// A group of layers; its children follow it.
    Group,
    /// A tile layer drawing from tileset `tileset` with the atlas `texture`,
    /// at depth `z` (tile layers are stacked in the order they are visited).
    Tiles { tileset: usize, texture: usize, z: u32, tiles: Vec<TileSpawn> },
}

/// A node of the scene: a layer of the map.
#[derive(Debug)]
pub struct SceneNode {
    pub name: String,
    /// The position of the group node this layer is in, or `None` for a
    /// layer at the top of the map.
    pub parent: Option<usize>,
    pub kind: SceneKind,
}

/// `SceneKind` with its tiles as a sequence.
pub enum SceneKindV {
    Group,
    Tiles { tileset: usize, texture: usize, z: u32, tiles: Seq<TileSpawn> },
}

/// `SceneNode` with its texts and tiles as sequences.
pub struct SceneNodeV {
    pub name: Seq<char>,
    pub parent: Option<usize>,
    pub kind: SceneKindV,
}

impl View for SceneNode {
    type V = SceneNodeV;

    open spec fn view(&self) -> SceneNodeV {
        SceneNodeV {
            name: self.name@,
            parent: self.parent,
            kind: match self.kind {
                SceneKind::Group => SceneKindV::Group,
                SceneKind::Tiles { tileset, texture, z, tiles } => SceneKindV::Tiles {
                    tileset,
                    texture,
                    z,
                    tiles: tiles@,
                },
            },
        }
    }
}

impl SceneNodeV {
    /// Whether the node, at position `pos`, is at the top of the map or in
    /// a group node placed before it.
    pub open spec fn parent_before(self, pos: int) -> bool {
        match self.parent {
            Some(p) => p < pos,
            None => true,
        }
    }
}

/// The views of a list of nodes.
pub open spec fn nodes_view(nodes: Seq<SceneNode>) -> Seq<SceneNodeV> {
    nodes.map_values(|n: SceneNode| n@)
}

/// Why a layer could not be visited, where the builder is not the cause.
#[derive(Debug, Clone, Copy, PartialEq, Eq, Structural)]
pub enum LayerFault {
    ImageLayer,
    ObjectLayer,
    InfiniteLayer,
    /// The tile layer does not draw from exactly one tileset.
    Tileset(TilesetError),
    /// The map has more tile layers than allowed.
    TooManyLayers,
}

/// Why a layer could not be visited.
#[derive(Debug)]
pub enum LayerFailure {
    Fault(LayerFault),
    /// The builder failed on the tile found at column `x` and row `y` (as
    /// the layer counts them, from the top).
    Tile { x: u32, y: u32, cause: String },
    /// The builder failed to finish the layer.
    FinishLayer(String),
}

/// Why a map could not be visited.
#[derive(Debug)]
pub enum MapSchemeError {
    /// The builder failed on the tileset.
    Tileset { set_id: usize, cause: String },
    /// Visiting the top-level layer of that name failed.
    Layer { name: String, cause: LayerFailure },
}

/// The tile of column `x` and row `y` of a `w` by `h` tile layer, to be
/// placed with its row counted from the bottom.
pub open spec fn spawn_at(
    layer: FiniteTileLayer,
    w: u32,
    h: u32,
    ix: TilesetIndexing,
    x: u32,
    y: u32,
) -> Option<TileSpawn> {
    match placed(layer, w, h, x as int, y as int) {
        None => None,
        Some(t) => Some(
            TileSpawn {
                x,
                y: (h - 1 - y) as u32,
                id: t.id,
                texture: ix.spec_dispatch(t.id),
                flip: TileFlip { x: t.flip_h, y: t.flip_v, d: t.flip_d },
            },
        ),
    }
}

/// The tiles of the columns before `x`, and of the first `y` rows of
/// column `x`, in that order.
pub open spec fn spawn_scan(
    layer: FiniteTileLayer,
    w: u32,
    h: u32,
    ix: TilesetIndexing,
    x: int,
    y: int,
) -> Seq<TileSpawn>
    decreases x, y,
{
    if y <= 0 {
        if x <= 0 {
            Seq::empty()
        } else {
            spawn_scan(layer, w, h, ix, x - 1, h as int)
        }
    } else {
        let done = spawn_scan(layer, w, h, ix, x, y - 1);
        match spawn_at(layer, w, h, ix, x as u32, (y - 1) as u32) {
            None => done,
            Some(s) => done.push(s),
        }
    }
}

/// Whether a tile layer can be placed: where it draws from one tileset,
/// that tileset is one of the map's `n`, has an indexing and an atlas, and
/// every tile on the layer has a texture.
pub open spec fn finite_layer_ok(
    layer: FiniteTileLayer,
    w: u32,
    h: u32,
    textures: Seq<(TilesetIndexing, usize)>,
    n: nat,
) -> bool {
    spec_unique_tileset(layer, w, h) matches Ok(t) ==> t < n && t < textures.len() && forall|
        cx: int,
        cy: int,
    |
        (#[trigger] layer.cell_at(cx, cy)) is Some ==> textures[t as int].0.maps(
            layer.cell_at(cx, cy)->0.id,
        )
}

/// Whether every tile layer within the layer can be placed.
pub open spec fn layer_ok(
    l: Layer,
    w: u32,
    h: u32,
    textures: Seq<(TilesetIndexing, usize)>,
    n: nat,
) -> bool
    decreases l, 0int,
{
    match l.kind {
        LayerKind::FiniteTiles(f) => finite_layer_ok(f, w, h, textures, n),
        LayerKind::Group(g) => layers_ok(g@, w, h, textures, n, 0),
        _ => true,
    }
}

/// Whether every tile layer within the layers from position `i` on can be
/// placed.
pub open spec fn layers_ok(
    ls: Seq<Layer>,
    w: u32,
    h: u32,
    textures: Seq<(TilesetIndexing, usize)>,
    n: nat,
    i: int,
) -> bool
    decreases ls, ls.len() - i,
{
    if i < 0 || i >= ls.len() {
        true
    } else {
        layer_ok(ls[i], w, h, textures, n) && layers_ok(ls, w, h, textures, n, i + 1)
    }
}

/// The scene of a layer whose node goes at position `base`, under
/// `parent`, where `idx` tile layers were placed before: its nodes and the
/// number of tile layers placed after it; or why it fails, where the
/// builder does not fail.
pub open spec fn plan_layer(
    l: Layer,
    parent: Option<usize>,
    base: nat,
    idx: u32,
    w: u32,
    h: u32,
    textures: Seq<(TilesetIndexing, usize)>,
) -> Result<(Seq<SceneNodeV>, u32), LayerFault>
    decreases l, 0int,
{
    match l.kind {
        LayerKind::Image => Err(LayerFault::ImageLayer),
        LayerKind::Objects => Err(LayerFault::ObjectLayer),
        LayerKind::InfiniteTiles(_) => Err(LayerFault::InfiniteLayer),
        LayerKind::FiniteTiles(f) => match spec_unique_tileset(f, w, h) {
            Err(c) => Err(LayerFault::Tileset(c)),
            Ok(t) => if idx >= MAX_TILE_LAYERS {
                Err(LayerFault::TooManyLayers)
            } else {
                Ok(
                    (
                        seq![
                            SceneNodeV {
                                name: l.name@,
                                parent,
                                kind: SceneKindV::Tiles {
                                    tileset: t,
                                    texture: textures[t as int].1,
                                    z: idx,
                                    tiles: spawn_scan(f, w, h, textures[t as int].0, w as int, 0),
                                },
                            },
                        ],
                        (idx + 1) as u32,
                    ),
                )
            },
        },
        LayerKind::Group(g) => {
            let node = SceneNodeV { name: l.name@, parent, kind: SceneKindV::Group };
            match plan_layers(g@, Some(base as usize), base + 1, idx, w, h, textures, 0) {
                Err(e) => Err(e),
                Ok((nodes, after)) => Ok((seq![node] + nodes, after)),
            }
        },
    }
}

/// The scene of the layers from position `i` on, under `parent`, their
/// nodes going from position `base` on, where `idx` tile layers were placed
/// before.
pub open spec fn plan_layers(
    ls: Seq<Layer>,
    parent: Option<usize>,
    base: nat,
    idx: u32,
    w: u32,
    h: u32,
    textures: Seq<(TilesetIndexing, usize)>,
    i: int,
) -> Result<(Seq<SceneNodeV>, u32), LayerFault>
    decreases ls, ls.len() - i,
{
    if i < 0 || i >= ls.len() {
        Ok((Seq::empty(), idx))
    } else {
        match plan_layer(ls[i], parent, base, idx, w, h, textures) {
            Err(e) => Err(e),
            Ok((first, after)) => match plan_layers(
                ls,
                parent,
                base + first.len(),
                after,
                w,
                h,
                textures,
                i + 1,
            ) {
                Err(e) => Err(e),
                Ok((rest, last)) => Ok((first + rest, last)),
            },
        }
    }
}

/// The scene of the top-level layers from position `i` on, where `idx`
/// tile layers and `base` nodes came before: its nodes and the number of
/// tile layers placed after it; a failure names the top-level layer it
/// happened in.
pub open spec fn plan_top(
    ls: Seq<Layer>,
    base: nat,
    idx: u32,
    w: u32,
    h: u32,
    textures: Seq<(TilesetIndexing, usize)>,
    i: int,
) -> Result<(Seq<SceneNodeV>, u32), (Seq<char>, LayerFault)>
    decreases ls.len() - i,
{
    if i < 0 || i >= ls.len() {
        Ok((Seq::empty(), idx))
    } else {
        match plan_layer(ls[i], None, base, idx, w, h, textures) {
            Err(e) => Err((ls[i].name@, e)),
            Ok((first, after)) => match plan_top(
                ls,
                base + first.len(),
                after,
                w,
                h,
                textures,
                i + 1,
            ) {
                Err(e) => Err(e),
                Ok((rest, last)) => Ok((first + rest, last)),
            },
        }
    }
}

/// The scene of the map, where `idx` tile layers were placed before and
/// the builder never fails: its nodes and the number of tile layers placed
/// after it.
pub open spec fn plan_map(map: MapData, idx: u32, textures: Seq<(TilesetIndexing, usize)>) -> Result<
    (Seq<SceneNodeV>, u32),
    (Seq<char>, LayerFault),
> {
    plan_top(map.layers@, 0, idx, map.width, map.height, textures, 0)
}

/// The nodes after `p`, in front of a planned result.
pub open spec fn prepend(
    p: Seq<SceneNodeV>,
    r: Result<(Seq<SceneNodeV>, u32), LayerFault>,
) -> Result<(Seq<SceneNodeV>, u32), LayerFault> {
    match r {
        Ok((rest, last)) => Ok((p + rest, last)),
        Err(e) => Err(e),
    }
}

/// The nodes after `p`, in front of a planned scene.
pub open spec fn prepend_top(
    p: Seq<SceneNodeV>,
    r: Result<(Seq<SceneNodeV>, u32), (Seq<char>, LayerFault)>,
) -> Result<(Seq<SceneNodeV>, u32), (Seq<char>, LayerFault)> {
    match r {
        Ok((rest, last)) => Ok((p + rest, last)),
        Err(e) => Err(e),
    }
}

/// The builder is not the cause of a failure.
pub open spec fn fault_of(f: LayerFailure) -> Option<LayerFault> {
    match f {
        LayerFailure::Fault(k) => Some(k),
        _ => None,
    }
}

/// A call the parser made to its builder, with whether the builder
/// accepted it.
pub enum BuilderCall {
    ProcessTileset { set_id: usize, ok: bool },
    Build { set_id: usize, id: u32, ok: bool },
    FinishLayer { set_id: usize, ok: bool },
}

/// How the visit of a layer ended, as the builder's answers decide it.
pub enum VisitEnd {
    /// The layer was placed; `idx` tile layers were placed by then.
    Done(u32),
    /// The layer cannot be placed, whatever the builder says.
    Fault(LayerFault),
    /// The builder refused one of the calls.
    Refused,
}

/// How a visit that failed with `f` ended.
pub open spec fn failure_end(f: LayerFailure) -> VisitEnd {
    match f {
        LayerFailure::Fault(k) => VisitEnd::Fault(k),
        _ => VisitEnd::Refused,
    }
}

/// The build calls the parser makes for the tiles `spawns[k..]` of
/// tileset `t`, read from `calls[k..]`: one per tile, in order, each for
/// the tile's tileset and id, up to and including the first one the
/// builder refused. Gives where they end and whether one was refused;
/// `None` where `calls` does not hold these calls.
pub open spec fn builds_from(calls: Seq<BuilderCall>, spawns: Seq<TileSpawn>, t: usize, k: int) -> Option<
    (int, bool),
>
    decreases spawns.len() - k,
{
    if k < 0 {
        None
    } else if k >= spawns.len() {
        Some((k, false))
    } else if k >= calls.len() {
        None
    } else {
        match calls[k] {
            BuilderCall::Build { set_id, id, ok } => if set_id == t && id == spawns[k].id {
                if ok {
                    builds_from(calls, spawns, t, k + 1)
                } else {
                    Some((k + 1, true))
                }
            } else {
                None
            },
            _ => None,
        }
    }
}

/// The calls of placing a tile layer of a `w` by `h` map, where `idx`
/// tile layers were placed before, read from the start of `calls`: the
/// builds of its tiles, then finishing the layer, for the one tileset it
/// draws from. Gives how many calls there are and how the visit ended;
/// `None` where `calls` does not start with these calls.
pub open spec fn check_finite(
    f: FiniteTileLayer,
    w: u32,
    h: u32,
    textures: Seq<(TilesetIndexing, usize)>,
    idx: u32,
    calls: Seq<BuilderCall>,
) -> Option<(int, VisitEnd)> {
    match spec_unique_tileset(f, w, h) {
        Err(c) => Some((0, VisitEnd::Fault(LayerFault::Tileset(c)))),
        Ok(t) => match builds_from(
            calls,
            spawn_scan(f, w, h, textures[t as int].0, w as int, 0),
            t,
            0,
        ) {
            None => None,
            Some((n, refused)) => if n < calls.len() {
                match calls[n] {
                    BuilderCall::FinishLayer { set_id, ok } => if set_id == t {
                        Some(
                            (
                                n + 1,
                                if !ok {
                                    VisitEnd::Refused
                                } else if idx >= MAX_TILE_LAYERS {
                                    VisitEnd::Fault(LayerFault::TooManyLayers)
                                } else if refused {
                                    VisitEnd::Refused
                                } else {
                                    VisitEnd::Done((idx + 1) as u32)
                                },
                            ),
                        )
                    } else {
                        None
                    },
                    _ => None,
                }
            } else {
                None
            },
        },
    }
}

/// The calls of visiting a layer, where `idx` tile layers were placed
/// before, read from the start of `calls`: those of each tile layer within
/// it, in order, up to the first one whose visit does not end placed.
pub open spec fn check_layer(
    l: Layer,
    idx: u32,
    w: u32,
    h: u32,
    textures: Seq<(TilesetIndexing, usize)>,
    calls: Seq<BuilderCall>,
) -> Option<(int, VisitEnd)>
    decreases l, 0int,
{
    match l.kind {
        LayerKind::Image => Some((0, VisitEnd::Fault(LayerFault::ImageLayer))),
        LayerKind::Objects => Some((0, VisitEnd::Fault(LayerFault::ObjectLayer))),
        LayerKind::InfiniteTiles(_) => Some((0, VisitEnd::Fault(LayerFault::InfiniteLayer))),
        LayerKind::FiniteTiles(f) => check_finite(f, w, h, textures, idx, calls),
        LayerKind::Group(g) => check_layers(g@, idx, w, h, textures, calls, 0),
    }
}

/// The calls of visiting the layers from position `i` on, in order, up to
/// the first one whose visit does not end placed.
pub open spec fn check_layers(
    ls: Seq<Layer>,
    idx: u32,
    w: u32,
    h: u32,
    textures: Seq<(TilesetIndexing, usize)>,
    calls: Seq<BuilderCall>,
    i: int,
) -> Option<(int, VisitEnd)>
    decreases ls, ls.len() - i,
{
    if i < 0 || i >= ls.len() {
        Some((0, VisitEnd::Done(idx)))
    } else {
        match check_layer(ls[i], idx, w, h, textures, calls) {
            None => None,
            Some((n, VisitEnd::Done(after))) => if 0 <= n <= calls.len() {
                match check_layers(ls, after, w, h, textures, calls.skip(n), i + 1) {
                    None => None,
                    Some((m, e)) => Some((n + m, e)),
                }
            } else {
                None
            },
            Some((n, e)) => Some((n, e)),
        }
    }
}

/// A reading of calls that starts `n` calls further on.
pub open spec fn shift_end(n: int, r: Option<(int, VisitEnd)>) -> Option<(int, VisitEnd)> {
    match r {
        Some((m, e)) => Some((n + m, e)),
        None => None,
    }
}

/// The calls of visiting the top-level layers from position `i` on, like
/// `check_layers`, also giving the position of the layer the visit
/// stopped in (the number of layers where all were placed).
pub open spec fn check_top(
    ls: Seq<Layer>,
    idx: u32,
    w: u32,
    h: u32,
    textures: Seq<(TilesetIndexing, usize)>,
    calls: Seq<BuilderCall>,
    i: int,
) -> Option<(int, VisitEnd, int)>
    decreases ls.len() - i,
{
    if i < 0 || i >= ls.len() {
        Some((0, VisitEnd::Done(idx), ls.len() as int))
    } else {
        match check_layer(ls[i], idx, w, h, textures, calls) {
            None => None,
            Some((n, VisitEnd::Done(after))) => if 0 <= n <= calls.len() {
                match check_top(ls, after, w, h, textures, calls.skip(n), i + 1) {
                    None => None,
                    Some((m, e, stop)) => Some((n + m, e, stop)),
                }
            } else {
                None
            },
            Some((n, e)) => Some((n, e, i)),
        }
    }
}

/// The calls telling the builder about the tilesets `k..m`, read from
/// `calls[k..]`: one per tileset, in order, up to and including the first
/// one the builder refused. Gives where they end and whether one was
/// refused.
pub open spec fn tilesets_from(calls: Seq<BuilderCall>, m: int, k: int) -> Option<(int, bool)>
    decreases m - k,
{
    if k < 0 {
        None
    } else if k >= m {
        Some((k, false))
    } else if k >= calls.len() {
        None
    } else {
        match calls[k] {
            BuilderCall::ProcessTileset { set_id, ok } => if set_id == k {
                if ok {
                    tilesets_from(calls, m, k + 1)
                } else {
                    Some((k + 1, true))
                }
            } else {
                None
            },
            _ => None,
        }
    }
}

/// The tiles of the columns before `x` and the first `y` rows of column
/// `x` come first among all the tiles of the layer.
pub proof fn lemma_scan_prefix(layer: FiniteTileLayer, w: u32, h: u32, ix: TilesetIndexing, x: int, y: int)
    requires
        0 <= x < w,
        0 <= y <= h,
    ensures
        spawn_scan(layer, w, h, ix, x, y).len() <= spawn_scan(layer, w, h, ix, w as int, 0).len(),
        spawn_scan(layer, w, h, ix, w as int, 0).take(spawn_scan(layer, w, h, ix, x, y).len() as int)
            == spawn_scan(layer, w, h, ix, x, y),
    decreases w - x, h - y,
{
    let here = spawn_scan(layer, w, h, ix, x, y);
    let full = spawn_scan(layer, w, h, ix, w as int, 0);
    if y < h {
        lemma_scan_prefix(layer, w, h, ix, x, y + 1);
        let next = spawn_scan(layer, w, h, ix, x, y + 1);
        assert(next.take(here.len() as int) == here);
        assert(full.take(here.len() as int) =~= next.take(here.len() as int));
    } else if x + 1 < w {
        lemma_scan_prefix(layer, w, h, ix, x + 1, 0);
        assert(spawn_scan(layer, w, h, ix, x + 1, 0) == here);
    } else {
        assert(full == here);
        assert(full.take(here.len() as int) =~= here);
    }
}

/// A reading of the top-level layers' calls that starts `n` calls further
/// on.
pub open spec fn shift_top(n: int, r: Option<(int, VisitEnd, int)>) -> Option<(int, VisitEnd, int)> {
    match r {
        Some((m, e, stop)) => Some((n + m, e, stop)),
        None => None,
    }
}

/// How a visit of a map ended, as `r` reports it, against how the reading
/// of the top-level layers' calls ends (`e`, in the layer at `stop`).
pub open spec fn map_end_matches(
    r: Result<Vec<SceneNode>, MapSchemeError>,
    e: VisitEnd,
    stop: int,
    layers: Seq<Layer>,
    idx: u32,
) -> bool {
    match r {
        Ok(_) => e == VisitEnd::Done(idx) && stop == layers.len(),
        Err(MapSchemeError::Tileset { .. }) => false,
        Err(MapSchemeError::Layer { name, cause }) => e == failure_end(cause) && 0 <= stop
            < layers.len() && name@ == layers[stop].name@,
    }
}

/// Whether the calls `seg` are those of visiting `map`, where `idx` tile
/// layers were placed before, and `r` reports how the visit ended (with
/// `idx_after` tile layers placed by then): one call about each tileset in
/// order, up to the first refused, then (where none was) the calls of the
/// top-level layers in order, up to the first layer not placed.
pub open spec fn map_visit_matches(
    seg: Seq<BuilderCall>,
    map: MapData,
    idx: u32,
    textures: Seq<(TilesetIndexing, usize)>,
    r: Result<Vec<SceneNode>, MapSchemeError>,
    idx_after: u32,
) -> bool {
    match tilesets_from(seg, map.tilesets@.len() as int, 0) {
        None => false,
        Some((n, refused)) => if refused {
            &&& n == seg.len()
            &&& r matches Err(MapSchemeError::Tileset { set_id, .. })
            &&& set_id == n - 1
        } else {
            match check_top(map.layers@, idx, map.width, map.height, textures, seg.skip(n), 0) {
                None => false,
                Some((k, e, stop)) => n + k == seg.len() && map_end_matches(
                    r,
                    e,
                    stop,
                    map.layers@,
                    idx_after,
                ),
            }
        }
    }
}

/// Tilesets the builder accepted leave the count of the calls about them
/// to where they are.
pub proof fn lemma_tilesets_accepted(calls: Seq<BuilderCall>, m: int, j: int, k: int)
    requires
        0 <= j <= k <= m,
        m <= usize::MAX,
        k <= calls.len(),
        forall|q: int|
            j <= q < k ==> #[trigger] calls[q] == (BuilderCall::ProcessTileset {
                set_id: q as usize,
                ok: true,
            }),
    ensures
        tilesets_from(calls, m, j) == tilesets_from(calls, m, k),
    decreases k - j,
{
    if j < k {
        lemma_tilesets_accepted(calls, m, j + 1, k);
    }
}

/// Builds the parser accepted for the tiles `spawns[..k]` leave the count
/// of the builds to where they are.
pub proof fn lemma_builds_accepted(calls: Seq<BuilderCall>, spawns: Seq<TileSpawn>, t: usize, j: int, k: int)
    requires
        0 <= j <= k <= spawns.len(),
        k <= calls.len(),
        forall|q: int|
            j <= q < k ==> #[trigger] calls[q] == (BuilderCall::Build {
                set_id: t,
                id: spawns[q].id,
                ok: true,
            }),
    ensures
        builds_from(calls, spawns, t, j) == builds_from(calls, spawns, t, k),
    decreases k - j,
{
    if j < k {
        lemma_builds_accepted(calls, spawns, t, j + 1, k);
    }
}

/// Reading the builds does not look past where they end.
pub proof fn lemma_builds_extend(calls: Seq<BuilderCall>, more: Seq<BuilderCall>, spawns: Seq<TileSpawn>, t: usize, k: int)
    requires
        builds_from(calls, spawns, t, k) is Some,
    ensures
        builds_from(calls + more, spawns, t, k) == builds_from(calls, spawns, t, k),
        builds_from(calls, spawns, t, k).unwrap().0 <= calls.len() || spawns.len() <= k,
        builds_from(calls, spawns, t, k).unwrap().0 >= k,
    decreases spawns.len() - k,
{
    if 0 <= k < spawns.len() {
        assert((calls + more)[k] == calls[k]);
        match calls[k] {
            BuilderCall::Build { ok, .. } => if ok {
                lemma_builds_extend(calls, more, spawns, t, k + 1);
            },
            _ => {},
        }
    }
}

/// Reading the calls of a layer does not look past where they end.
pub proof fn lemma_check_layer_extend(
    l: Layer,
    idx: u32,
    w: u32,
    h: u32,
    textures: Seq<(TilesetIndexing, usize)>,
    calls: Seq<BuilderCall>,
    more: Seq<BuilderCall>,
)
    requires
        check_layer(l, idx, w, h, textures, calls) is Some,
    ensures
        check_layer(l, idx, w, h, textures, calls + more) == check_layer(l, idx, w, h, textures, calls),
        0 <= check_layer(l, idx, w, h, textures, calls).unwrap().0 <= calls.len(),
    decreases l, 0int,
{
    match l.kind {
        LayerKind::FiniteTiles(f) => {
            match spec_unique_tileset(f, w, h) {
                Ok(t) => {
                    let spawns = spawn_scan(f, w, h, textures[t as int].0, w as int, 0);
                    lemma_builds_extend(calls, more, spawns, t, 0);
                    let n = builds_from(calls, spawns, t, 0).unwrap().0;
                    assert((calls + more)[n] == calls[n]);
                },
                Err(_) => {},
            }
        },
        LayerKind::Group(g) => {
            lemma_check_layers_extend(g@, idx, w, h, textures, calls, more, 0);
        },
        _ => {},
    }
}

/// Reading the calls of a list of layers does not look past where they
/// end.
pub proof fn lemma_check_layers_extend(
    ls: Seq<Layer>,
    idx: u32,
    w: u32,
    h: u32,
    textures: Seq<(TilesetIndexing, usize)>,
    calls: Seq<BuilderCall>,
    more: Seq<BuilderCall>,
    i: int,
)
    requires
        check_layers(ls, idx, w, h, textures, calls, i) is Some,
    ensures
        check_layers(ls, idx, w, h, textures, calls + more, i) == check_layers(
            ls,
            idx,
            w,
            h,
            textures,
            calls,
            i,
        ),
        0 <= check_layers(ls, idx, w, h, textures, calls, i).unwrap().0 <= calls.len(),
    decreases ls, ls.len() - i,
{
    if 0 <= i < ls.len() {
        lemma_check_layer_extend(ls[i], idx, w, h, textures, calls, more);
        match check_layer(ls[i], idx, w, h, textures, calls) {
            Some((n, VisitEnd::Done(after))) => {
                assert((calls + more).skip(n) =~= calls.skip(n) + more);
                lemma_check_layers_extend(ls, after, w, h, textures, calls.skip(n), more, i + 1);
            },
            _ => {},
        }
    }
}

/// The state of a visit: how many tile layers were placed.
pub struct ParserState {
    layer_idx: u32,
}

impl ParserState {
    pub closed spec fn spec_layer_idx(self) -> u32 {
        self.layer_idx
    }

    /// No tile layer placed yet.
    pub fn new() -> (r: Self)
        ensures
            r.spec_layer_idx() == 0,
    {
        ParserState { layer_idx: 0 }
    }
}

/// Visits maps, placing their layers with the textures of their tilesets
/// and telling the builder about them.
pub struct MapParser<B: TileBuilder> {
    state: ParserState,
    builder: B,
    /// The indexing and the atlas of each tileset.
    tilemap_texture_data: Vec<(TilesetIndexing, usize)>,
    /// The calls made to the builder so far, in order.
    calls: Ghost<Seq<BuilderCall>>,
}

impl<B: TileBuilder> MapParser<B> {
    pub closed spec fn textures(self) -> Seq<(TilesetIndexing, usize)> {
        self.tilemap_texture_data@
    }

    pub closed spec fn spec_state(self) -> ParserState {
        self.state
    }

    /// The calls made to the builder so far, in order, with its answers.
    pub closed spec fn log(self) -> Seq<BuilderCall> {
        self.calls@
    }

    /// The builder the parser tells about what it visits.
    pub closed spec fn spec_builder(self) -> B {
        self.builder
    }

    /// A parser with no tile layer placed yet.
    pub fn new(builder: B, tilemap_texture_data: Vec<(TilesetIndexing, usize)>) -> (r: Self)
        ensures
            r.textures() == tilemap_texture_data@,
            r.spec_state().spec_layer_idx() == 0,
            r.spec_builder() == builder,
            r.log() == Seq::<BuilderCall>::empty(),
    {
        MapParser {
            state: ParserState::new(),
            builder,
            tilemap_texture_data,
            calls: Ghost(Seq::empty()),
        }
    }

    /// The builder, once the visits are done.
    pub fn into_builder(self) -> (r: B)
        ensures
            r == self.spec_builder(),
    {
        self.builder
    }

    /// Places a tile: its position with the row counted from the bottom,
    /// its texture and its flipping; then tells the builder.
    pub fn spawn_tile(
        &mut self,
        x: u32,
        y: u32,
        tileset_index: usize,
        tileset: &TilesetData,
        tile: crate::tilemap::LayerTileData,
    ) -> (r: Result<TileSpawn, String>)
        requires
            tileset_index < old(self).textures().len(),
            old(self).textures()[tileset_index as int].0.maps(tile.id),
        ensures
            final(self).textures() == old(self).textures(),
            final(self).spec_state() == old(self).spec_state(),
            final(self).log() == old(self).log().push(
                BuilderCall::Build { set_id: tileset_index, id: tile.id, ok: r is Ok },
            ),
            r matches Ok(s) ==> s == (TileSpawn {
                x,
                y,
                id: tile.id,
                texture: old(self).textures()[tileset_index as int].0.spec_dispatch(tile.id),
                flip: TileFlip { x: tile.flip_h, y: tile.flip_v, d: tile.flip_d },
            }),
    {
        let spawn = TileSpawn {
            x,
            y,
            id: tile.id,
            texture: self.tilemap_texture_data[tileset_index].0.dispatch(tile.id),
            flip: tile.bevy_flip_flags(),
        };
        let answer = self.builder.build(tileset_index, tileset, tile.id);
        proof {
            self.calls@ = self.calls@.push(
                BuilderCall::Build { set_id: tileset_index, id: tile.id, ok: answer is Ok },
            );
        }
        match answer {
            Ok(()) => Ok(spawn),
            Err(e) => Err(e),
        }
    }

    /// Places a tile layer of a `w` by `h` map: finds its tileset, places
    /// its tiles column by column (each column from its first row, each
    /// tile's row counted from the bottom), tells the builder the layer is
    /// finished and counts it.
    pub fn parse_finite_tile_layer(
        &mut self,
        name: &String,
        parent: Option<usize>,
        tiles: &FiniteTileLayer,
        w: u32,
        h: u32,
        tilesets: &Vec<TilesetData>,
    ) -> (r: Result<SceneNode, LayerFailure>)
        requires
            finite_layer_ok(*tiles, w, h, old(self).textures(), tilesets@.len()),
        ensures
            final(self).textures() == old(self).textures(),
            final(self).log().len() >= old(self).log().len(),
            final(self).log().take(old(self).log().len() as int) == old(self).log(),
            check_finite(
                *tiles,
                w,
                h,
                old(self).textures(),
                old(self).spec_state().spec_layer_idx(),
                final(self).log().skip(old(self).log().len() as int),
            ) == Some::<(int, VisitEnd)>(
                (
                    final(self).log().len() - old(self).log().len(),
                    match r {
                        Ok(_) => VisitEnd::Done(final(self).spec_state().spec_layer_idx()),
                        Err(f) => failure_end(f),
                    },
                ),
            ),
            match spec_unique_tileset(*tiles, w, h) {
                Err(c) => r matches Err(LayerFailure::Fault(k)) && k == LayerFault::Tileset(c)
                    && final(self).spec_state() == old(self).spec_state(),
                Ok(t) => match r {
                    Ok(node) => old(self).spec_state().spec_layer_idx() < MAX_TILE_LAYERS
                        && final(self).spec_state().spec_layer_idx() == old(
                        self,
                    ).spec_state().spec_layer_idx() + 1 && node@ == (SceneNodeV {
                        name: name@,
                        parent,
                        kind: SceneKindV::Tiles {
                            tileset: t,
                            texture: old(self).textures()[t as int].1,
                            z: old(self).spec_state().spec_layer_idx(),
                            tiles: spawn_scan(
                                *tiles,
                                w,
                                h,
                                old(self).textures()[t as int].0,
                                w as int,
                                0,
                            ),
                        },
                    }),
                    Err(LayerFailure::Fault(k)) => k == LayerFault::TooManyLayers && old(
                        self,
                    ).spec_state().spec_layer_idx() >= MAX_TILE_LAYERS && final(self).spec_state()
                        == old(self).spec_state(),
                    Err(LayerFailure::Tile { x, y, .. }) => placed(
                        *tiles,
                        w,
                        h,
                        x as int,
                        y as int,
                    ) is Some && old(self).spec_state().spec_layer_idx() < MAX_TILE_LAYERS
                        && final(self).spec_state().spec_layer_idx() == old(
                        self,
                    ).spec_state().spec_layer_idx() + 1 && final(self).log()[final(self).log().len()
                        - 2] == (BuilderCall::Build {
                        set_id: t,
                        id: placed(*tiles, w, h, x as int, y as int)->0.id,
                        ok: false,
                    }),
                    Err(LayerFailure::FinishLayer(_)) => final(self).spec_state() == old(
                        self,
                    ).spec_state(),
                },
            },
    {
        let ghost log0 = self.log();
        let ghost l0 = log0.len() as int;
        let ghost idx0 = self.spec_state().spec_layer_idx();
        let tileset_index = match ensure_unique_tileset(tiles, w, h) {
            Ok(t) => t,
            Err(c) => {
                proof {
                    assert(self.log().skip(l0) =~= Seq::<BuilderCall>::empty());
                    assert(self.log().take(l0) =~= log0);
                }
                return Err(LayerFailure::Fault(LayerFault::Tileset(c)));
            },
        };
        let tileset = &tilesets[tileset_index];
        let ghost ix = self.tilemap_texture_data@[tileset_index as int].0;
        let ghost full = spawn_scan(*tiles, w, h, ix, w as int, 0);
        let ghost mut attempted: Seq<TileSpawn> = Seq::empty();
        let mut spawned: Vec<TileSpawn> = Vec::new();
        let mut failure: Option<(u32, u32, String)> = None;
        let mut x: u32 = 0;
        proof {
            assert(self.log().take(l0) =~= log0);
        }
        while x < w && failure.is_none()
            invariant
                x <= w,
                self.textures() == old(self).textures(),
                self.spec_state() == old(self).spec_state(),
                tileset_index < self.textures().len(),
                ix == self.textures()[tileset_index as int].0,
                full == spawn_scan(*tiles, w, h, ix, w as int, 0),
                finite_layer_ok(*tiles, w, h, self.textures(), tilesets@.len()),
                spec_unique_tileset(*tiles, w, h) == Ok::<usize, TilesetError>(tileset_index),
                failure is None ==> spawned@ == spawn_scan(*tiles, w, h, ix, x as int, 0),
                failure is None ==> attempted == spawned@,
                failure matches Some(f) ==> placed(*tiles, w, h, f.0 as int, f.1 as int) is Some
                    && attempted.len() >= 1 && attempted.last().id == placed(
                    *tiles,
                    w,
                    h,
                    f.0 as int,
                    f.1 as int,
                )->0.id,
                attempted.len() <= full.len(),
                full.take(attempted.len() as int) == attempted,
                l0 == log0.len(),
                self.log().len() == l0 + attempted.len(),
                self.log().take(l0) == log0,
                forall|k: int|
                    0 <= k < attempted.len() ==> #[trigger] self.log()[l0 + k] == (BuilderCall::Build {
                        set_id: tileset_index,
                        id: attempted[k].id,
                        ok: !(failure is Some && k == attempted.len() - 1),
                    }),
            decreases w - x,
        {
            let mut y: u32 = 0;
            while y < h && failure.is_none()
                invariant
                    x < w,
                    y <= h,
                    self.textures() == old(self).textures(),
                    self.spec_state() == old(self).spec_state(),
                    tileset_index < self.textures().len(),
                    ix == self.textures()[tileset_index as int].0,
                    full == spawn_scan(*tiles, w, h, ix, w as int, 0),
                    finite_layer_ok(*tiles, w, h, self.textures(), tilesets@.len()),
                    spec_unique_tileset(*tiles, w, h) == Ok::<usize, TilesetError>(tileset_index),
                    failure is None ==> spawned@ == spawn_scan(
                        *tiles,
                        w,
                        h,
                        ix,
                        x as int,
                        y as int,
                    ),
                    failure is None ==> attempted == spawned@,
                    failure matches Some(f) ==> placed(*tiles, w, h, f.0 as int, f.1 as int)
                        is Some && attempted.len() >= 1 && attempted.last().id == placed(
                        *tiles,
                        w,
                        h,
                        f.0 as int,
                        f.1 as int,
                    )->0.id,
                    attempted.len() <= full.len(),
                    full.take(attempted.len() as int) == attempted,
                    l0 == log0.len(),
                    self.log().len() == l0 + attempted.len(),
                    self.log().take(l0) == log0,
                    forall|k: int|
                        0 <= k < attempted.len() ==> #[trigger] self.log()[l0 + k] == (
                        BuilderCall::Build {
                            set_id: tileset_index,
                            id: attempted[k].id,
                            ok: !(failure is Some && k == attempted.len() - 1),
                        }),
                decreases h - y,
            {
                let cx = to_i32_wrapping(x);
                let cy = to_i32_wrapping(y);
                let cell = tiles.get_tile_data(cx, cy);
                proof {
                    assert(cell == placed(*tiles, w, h, x as int, y as int));
                }
                if let Some(tile) = cell {
                    proof {
                        assert(tiles.cell_at(cx as int, cy as int) is Some);
                    }
                    let ghost log_before = self.log();
                    let ghost spawn_here = spawn_at(*tiles, w, h, ix, x, y)->0;
                    let res = self.spawn_tile(x, h - 1 - y, tileset_index, tileset, tile);
                    proof {
                        attempted = attempted.push(spawn_here);
                        assert(attempted == spawn_scan(*tiles, w, h, ix, x as int, y + 1));
                        lemma_scan_prefix(*tiles, w, h, ix, x as int, y + 1);
                        assert(self.log().take(l0) =~= log0) by {
                            assert forall|k: int| 0 <= k < l0 implies #[trigger] self.log().take(
                                l0,
                            )[k] == log0[k] by {
                                assert(log_before.take(l0)[k] == log0[k]);
                            }
                        }
                    }
                    match res {
                        Ok(s) => {
                            spawned.push(s);
                        },
                        Err(cause) => {
                            failure = Some((x, y, cause));
                        },
                    }
                    proof {
                        assert forall|k: int| 0 <= k < attempted.len() implies #[trigger] self.log()[l0
                            + k] == (BuilderCall::Build {
                            set_id: tileset_index,
                            id: attempted[k].id,
                            ok: !(failure is Some && k == attempted.len() - 1),
                        }) by {
                            if k < attempted.len() - 1 {
                                assert(log_before[l0 + k] == self.log()[l0 + k]);
                            }
                        }
                    }
                }
                y = y + 1;
            }
            x = x + 1;
        }
        let ghost builds = self.log().skip(l0);
        let ghost n = attempted.len() as int;
        proof {
            if failure is None {
                assert(attempted == full);
                assert forall|q: int| 0 <= q < n implies #[trigger] builds[q] == (
                BuilderCall::Build { set_id: tileset_index, id: full[q].id, ok: true }) by {
                    assert(builds[q] == self.log()[l0 + q]);
                }
                lemma_builds_accepted(builds, full, tileset_index, 0, n);
                assert(builds_from(builds, full, tileset_index, n) == Some((n, false)));
            } else {
                assert(builds[n - 1] == self.log()[l0 + (n - 1)]);
                assert(full[n - 1] == attempted[n - 1]);
                assert forall|q: int| 0 <= q < n - 1 implies #[trigger] builds[q] == (
                BuilderCall::Build { set_id: tileset_index, id: full[q].id, ok: true }) by {
                    assert(builds[q] == self.log()[l0 + q]);
                    assert(full[q] == attempted[q]);
                }
                lemma_builds_accepted(builds, full, tileset_index, 0, n - 1);
                assert(builds.len() == n);
                assert(n - 1 < full.len());
                assert(builds[n - 1] == (BuilderCall::Build {
                    set_id: tileset_index,
                    id: full[n - 1].id,
                    ok: false,
                }));
                assert(builds_from(builds, full, tileset_index, n - 1) == Some((n, true)));
            }
            assert(builds_from(builds, full, tileset_index, 0) == Some((n, failure is Some)));
        }
        let texture = self.tilemap_texture_data[tileset_index].1;
        let finished = self.builder.finish_layer(tileset_index, tileset);
        proof {
            self.calls@ = self.calls@.push(
                BuilderCall::FinishLayer { set_id: tileset_index, ok: finished is Ok },
            );
            let seg = self.log().skip(l0);
            assert(seg =~= builds + seq![BuilderCall::FinishLayer { set_id: tileset_index, ok: finished is Ok }]);
            lemma_builds_extend(
                builds,
                seq![BuilderCall::FinishLayer { set_id: tileset_index, ok: finished is Ok }],
                full,
                tileset_index,
                0,
            );
            assert(seg[n] == BuilderCall::FinishLayer { set_id: tileset_index, ok: finished is Ok });
            assert(builds_from(seg, full, tileset_index, 0) == Some((n, failure is Some)));
            assert(self.log().take(l0) =~= log0) by {
                assert forall|k: int| 0 <= k < l0 implies #[trigger] self.log().take(l0)[k]
                    == log0[k] by {
                    assert(old(self).log()[k] == log0[k]);
                }
            }
        }
        match finished {
            Ok(()) => {},
            Err(e) => return Err(LayerFailure::FinishLayer(e)),
        }
        if self.state.layer_idx >= MAX_TILE_LAYERS {
            return Err(LayerFailure::Fault(LayerFault::TooManyLayers));
        }
        let z = self.state.layer_idx;
        self.state.layer_idx = z + 1;
        match failure {
            Some((fx, fy, cause)) => Err(LayerFailure::Tile { x: fx, y: fy, cause }),
            None => Ok(
                SceneNode {
                    name: name.clone(),
                    parent,
                    kind: SceneKind::Tiles { tileset: tileset_index, texture, z, tiles: spawned },
                },
            ),
        }
    }

    /// Visits a layer: a group layer with the layers in it, in order, or a
    /// tile layer; other kinds of layers are refused. Its nodes are added
    /// to `out`, under `parent`.
    pub fn parse_layer(
        &mut self,
        layer: &Layer,
        parent: Option<usize>,
        out: &mut Vec<SceneNode>,
        w: u32,
        h: u32,
        tilesets: &Vec<TilesetData>,
    ) -> (r: Result<(), LayerFailure>)
        requires
            layer_ok(*layer, w, h, old(self).textures(), tilesets@.len()),
        ensures
            final(self).textures() == old(self).textures(),
            final(self).log().len() >= old(self).log().len(),
            final(self).log().take(old(self).log().len() as int) == old(self).log(),
            check_layer(
                *layer,
                old(self).spec_state().spec_layer_idx(),
                w,
                h,
                old(self).textures(),
                final(self).log().skip(old(self).log().len() as int),
            ) == Some::<(int, VisitEnd)>(
                (
                    final(self).log().len() - old(self).log().len(),
                    match r {
                        Ok(_) => VisitEnd::Done(final(self).spec_state().spec_layer_idx()),
                        Err(f) => failure_end(f),
                    },
                ),
            ),
            final(out)@.len() >= old(out)@.len(),
            nodes_view(final(out)@).take(old(out)@.len() as int) == nodes_view(old(out)@),
            r is Ok ==> plan_layer(
                *layer,
                parent,
                old(out)@.len(),
                old(self).spec_state().spec_layer_idx(),
                w,
                h,
                old(self).textures(),
            ) == Ok::<(Seq<SceneNodeV>, u32), LayerFault>(
                (
                    nodes_view(final(out)@).skip(old(out)@.len() as int),
                    final(self).spec_state().spec_layer_idx(),
                ),
            ),
            r matches Err(f) ==> (fault_of(f) is Some ==> plan_layer(
                *layer,
                parent,
                old(out)@.len(),
                old(self).spec_state().spec_layer_idx(),
                w,
                h,
                old(self).textures(),
            ) == Err::<(Seq<SceneNodeV>, u32), LayerFault>(fault_of(f)->0)),
        decreases layer,
    {
        let ghost before = nodes_view(out@);
        let ghost log0 = self.log();
        let ghost l0 = log0.len() as int;
        proof {
            assert(self.log().skip(l0) =~= Seq::<BuilderCall>::empty());
            assert(self.log().take(l0) =~= log0);
        }
        match &layer.kind {
            LayerKind::Image => Err(LayerFailure::Fault(LayerFault::ImageLayer)),
            LayerKind::Objects => Err(LayerFailure::Fault(LayerFault::ObjectLayer)),
            LayerKind::InfiniteTiles(_) => Err(LayerFailure::Fault(LayerFault::InfiniteLayer)),
            LayerKind::FiniteTiles(f) => {
                let node = match self.parse_finite_tile_layer(&layer.name, parent, f, w, h, tilesets) {
                    Ok(node) => node,
                    Err(e) => return Err(e),
                };
                let ghost nv = node@;
                out.push(node);
                proof {
                    assert(nodes_view(out@) =~= before.push(nv));
                    assert(nodes_view(out@).take(before.len() as int) =~= before);
                    assert(nodes_view(out@).skip(before.len() as int) =~= seq![nv]);
                }
                Ok(())
            },
            LayerKind::Group(g) => {
                let me = out.len();
                let ghost idx0 = self.spec_state().spec_layer_idx();
                let ghost nv = SceneNodeV { name: layer.name@, parent, kind: SceneKindV::Group };
                out.push(SceneNode { name: layer.name.clone(), parent, kind: SceneKind::Group });
                proof {
                    assert(nodes_view(out@) =~= before.push(nv));
                    assert(nodes_view(out@).skip(me + 1) =~= Seq::<SceneNodeV>::empty());
                    assert(prepend(Seq::empty(), plan_layers(g@, Some(me), (me + 1) as nat, idx0, w, h, self.textures(), 0))
                        == plan_layers(g@, Some(me), (me + 1) as nat, idx0, w, h, self.textures(), 0)) by {
                        match plan_layers(g@, Some(me), (me + 1) as nat, idx0, w, h, self.textures(), 0) {
                            Ok((rest, last)) => {
                                assert(Seq::<SceneNodeV>::empty() + rest =~= rest);
                            },
                            Err(_) => {},
                        }
                    }
                }
                let ghost idx_start = self.spec_state().spec_layer_idx();
                proof {
                    assert(self.log().len() == l0);
                    assert forall|x: Seq<BuilderCall>| check_layers(
                        g@,
                        idx0,
                        w,
                        h,
                        self.textures(),
                        self.log().skip(l0) + x,
                        0,
                    ) == shift_end(
                        self.log().len() - l0,
                        #[trigger] check_layers(g@, idx_start, w, h, self.textures(), x, 0),
                    ) by {
                        assert(self.log().skip(l0) + x =~= x);
                        match check_layers(g@, idx_start, w, h, self.textures(), x, 0) {
                            Some((m, e)) => {},
                            None => {},
                        }
                    }
                }
                let mut i: usize = 0;
                while i < g.len()
                    invariant
                        i <= g@.len(),
                        l0 == log0.len(),
                        log0 == old(self).log(),
                        idx_start == idx0,
                        self.log().len() >= l0,
                        self.log().take(l0) == log0,
                        forall|x: Seq<BuilderCall>| check_layers(
                            g@,
                            idx0,
                            w,
                            h,
                            self.textures(),
                            self.log().skip(l0) + x,
                            0,
                        ) == shift_end(
                            self.log().len() - l0,
                            #[trigger] check_layers(
                                g@,
                                self.spec_state().spec_layer_idx(),
                                w,
                                h,
                                self.textures(),
                                x,
                                i as int,
                            ),
                        ),
                        layer.kind == LayerKind::Group(*g),
                        idx0 == old(self).spec_state().spec_layer_idx(),
                        nv == (SceneNodeV { name: layer.name@, parent, kind: SceneKindV::Group }),
                        before == nodes_view(old(out)@),
                        me == before.len(),
                        self.textures() == old(self).textures(),
                        layers_ok(g@, w, h, self.textures(), tilesets@.len(), 0),
                        out@.len() >= me + 1,
                        nodes_view(out@).take(me + 1) == before.push(nv),
                        plan_layers(g@, Some(me), (me + 1) as nat, idx0, w, h, self.textures(), 0)
                            == prepend(
                            nodes_view(out@).skip(me + 1),
                            plan_layers(
                                g@,
                                Some(me),
                                out@.len() as nat,
                                self.spec_state().spec_layer_idx(),
                                w,
                                h,
                                self.textures(),
                                i as int,
                            ),
                        ),
                    decreases g@.len() - i,
                {
                    proof {
                        lemma_layers_ok_at(g@, w, h, self.textures(), tilesets@.len(), i as int);
                    }
                    let ghost out_before = nodes_view(out@);
                    let ghost idx_before = self.spec_state().spec_layer_idx();
                    let ghost log_b = self.log();
                    proof {
                        assert(decreases_to!(*layer => g@[i as int]));
                    }
                    let res = self.parse_layer(&g[i], Some(me), out, w, h, tilesets);
                    proof {
                        let lb = log_b.len() as int;
                        let tex = self.textures();
                        let big_s = log_b.skip(l0);
                        let big_t = self.log().skip(lb);
                        assert(self.log().take(l0) =~= log0) by {
                            assert forall|k: int| 0 <= k < l0 implies #[trigger] self.log().take(l0)[k]
                                == log0[k] by {
                                assert(self.log().take(lb)[k] == log_b[k]);
                                assert(log_b.take(l0)[k] == log0[k]);
                            }
                        }
                        assert(self.log().skip(l0) =~= big_s + big_t) by {
                            assert forall|k: int| 0 <= k < self.log().len() - l0 implies #[trigger] self.log().skip(
                                l0,
                            )[k] == (big_s + big_t)[k] by {
                                if k < big_s.len() {
                                    assert(self.log().take(lb)[l0 + k] == log_b[l0 + k]);
                                }
                            }
                        }
                        assert(check_layers(g@, idx0, w, h, tex, big_s + big_t, 0) == shift_end(
                            big_s.len() as int,
                            check_layers(g@, idx_before, w, h, tex, big_t, i as int),
                        ));
                        if res is Ok {
                            let idx_new = self.spec_state().spec_layer_idx();
                            assert forall|x: Seq<BuilderCall>| check_layers(
                                g@,
                                idx0,
                                w,
                                h,
                                tex,
                                self.log().skip(l0) + x,
                                0,
                            ) == shift_end(
                                self.log().len() - l0,
                                #[trigger] check_layers(g@, idx_new, w, h, tex, x, i + 1),
                            ) by {
                                lemma_check_layer_extend(g@[i as int], idx_before, w, h, tex, big_t, x);
                                assert((big_t + x).skip(big_t.len() as int) =~= x);
                                assert(check_layers(g@, idx0, w, h, tex, big_s + (big_t + x), 0)
                                    == shift_end(
                                    big_s.len() as int,
                                    check_layers(g@, idx_before, w, h, tex, big_t + x, i as int),
                                ));
                                assert(big_s + (big_t + x) =~= (big_s + big_t) + x);
                                match check_layers(g@, idx_new, w, h, tex, x, i + 1) {
                                    Some((m, e)) => {},
                                    None => {},
                                }
                            }
                        }
                        if res is Err && fault_of(res->Err_0) is Some {
                            assert(plan_layers(
                                g@,
                                Some(me),
                                out_before.len(),
                                idx_before,
                                w,
                                h,
                                self.textures(),
                                i as int,
                            ) == Err::<(Seq<SceneNodeV>, u32), LayerFault>(
                                fault_of(res->Err_0)->0,
                            ));
                        }
                        let now = nodes_view(out@);
                        assert(now.take(me + 1) =~= out_before.take(me + 1)) by {
                            assert(now.take(out_before.len() as int) == out_before);
                            assert forall|k: int| 0 <= k < me + 1 implies #[trigger] now.take(
                                me + 1,
                            )[k] == out_before.take(me + 1)[k] by {
                                assert(now.take(out_before.len() as int)[k] == out_before[k]);
                            }
                        }
                        let first = now.skip(out_before.len() as int);
                        assert(now.skip(me + 1) =~= out_before.skip(me + 1) + first) by {
                            assert forall|k: int| 0 <= k < now.len() - (me + 1) implies #[trigger] now.skip(
                                me + 1,
                            )[k] == (out_before.skip(me + 1) + first)[k] by {
                                if k < out_before.len() - (me + 1) {
                                    assert(now.take(out_before.len() as int)[k + me + 1]
                                        == out_before[k + me + 1]);
                                }
                            }
                        }
                        match plan_layers(
                            g@,
                            Some(me),
                            out_before.len() as nat,
                            idx_before,
                            w,
                            h,
                            self.textures(),
                            i as int,
                        ) {
                            Ok((a, b)) => {},
                            Err(e) => {},
                        }
                        if res is Ok {
                            match plan_layers(
                                g@,
                                Some(me),
                                out@.len() as nat,
                                self.spec_state().spec_layer_idx(),
                                w,
                                h,
                                self.textures(),
                                i + 1,
                            ) {
                                Ok((rest, last)) => {
                                    assert(out_before.skip(me + 1) + (first + rest) =~= (
                                    out_before.skip(me + 1) + first) + rest);
                                },
                                Err(_) => {},
                            }
                        }
                    }
                    if let Err(e) = res {
                        return Err(e);
                    }
                    i = i + 1;
                }
                proof {
                    assert(self.log().skip(l0) + Seq::<BuilderCall>::empty() =~= self.log().skip(l0));
                    assert(check_layers(
                        g@,
                        idx0,
                        w,
                        h,
                        self.textures(),
                        self.log().skip(l0) + Seq::<BuilderCall>::empty(),
                        0,
                    ) == shift_end(
                        self.log().len() - l0,
                        check_layers(
                            g@,
                            self.spec_state().spec_layer_idx(),
                            w,
                            h,
                            self.textures(),
                            Seq::<BuilderCall>::empty(),
                            i as int,
                        ),
                    ));
                    let now = nodes_view(out@);
                    assert(now =~= now.take(me + 1) + now.skip(me + 1));
                    assert(now.skip(before.len() as int) =~= seq![nv] + now.skip(me + 1));
                    assert(now.take(before.len() as int) =~= before);
                }
                Ok(())
            },
        }
    }

    /// Visits a map: tells the builder about each tileset, then visits the
    /// map's layers in order; a failure in a layer is reported with the
    /// name of the top-level layer it is in.
    pub fn parse_map(&mut self, map: &MapData) -> (r: Result<Vec<SceneNode>, MapSchemeError>)
        requires
            old(self).textures().len() >= map.tilesets@.len(),
            layers_ok(map.layers@, map.width, map.height, old(self).textures(), map.tilesets@.len(), 0),
        ensures
            final(self).textures() == old(self).textures(),
            r matches Ok(nodes) ==> plan_map(
                *map,
                old(self).spec_state().spec_layer_idx(),
                old(self).textures(),
            ) == Ok::<(Seq<SceneNodeV>, u32), (Seq<char>, LayerFault)>(
                (nodes_view(nodes@), final(self).spec_state().spec_layer_idx()),
            ),
            r matches Err(MapSchemeError::Layer { name, cause }) ==> (fault_of(cause) is Some
                ==> plan_map(*map, old(self).spec_state().spec_layer_idx(), old(self).textures())
                == Err::<(Seq<SceneNodeV>, u32), (Seq<char>, LayerFault)>(
                (name@, fault_of(cause)->0),
            )),
            plan_map(*map, old(self).spec_state().spec_layer_idx(), old(self).textures()) is Err
                ==> r is Err,
            final(self).log().len() >= old(self).log().len(),
            final(self).log().take(old(self).log().len() as int) == old(self).log(),
            map_visit_matches(
                final(self).log().skip(old(self).log().len() as int),
                *map,
                old(self).spec_state().spec_layer_idx(),
                old(self).textures(),
                r,
                final(self).spec_state().spec_layer_idx(),
            ),
    {
        let ghost log0 = self.log();
        let ghost l0 = log0.len() as int;
        let ghost m = map.tilesets@.len() as int;
        proof {
            assert(self.log().take(l0) =~= log0);
        }
        let mut id: usize = 0;
        while id < map.tilesets.len()
            invariant
                id <= map.tilesets@.len(),
                m == map.tilesets@.len(),
                self.textures() == old(self).textures(),
                self.spec_state() == old(self).spec_state(),
                old(self).textures().len() >= map.tilesets@.len(),
                l0 == log0.len(),
                log0 == old(self).log(),
                self.log().len() == l0 + id,
                self.log().take(l0) == log0,
                forall|q: int|
                    0 <= q < id ==> #[trigger] self.log()[l0 + q] == (BuilderCall::ProcessTileset {
                        set_id: q as usize,
                        ok: true,
                    }),
            decreases map.tilesets@.len() - id,
        {
            let processed = self.builder.process_tileset(
                id,
                &map.tilesets[id],
                &self.tilemap_texture_data[id].0,
            );
            let ghost log_b = self.log();
            proof {
                self.calls@ = self.calls@.push(
                    BuilderCall::ProcessTileset { set_id: id, ok: processed is Ok },
                );
                assert(self.log().take(l0) =~= log0) by {
                    assert forall|k: int| 0 <= k < l0 implies #[trigger] self.log().take(l0)[k]
                        == log0[k] by {
                        assert(log_b.take(l0)[k] == log0[k]);
                    }
                }
                assert forall|q: int| 0 <= q < id implies #[trigger] self.log()[l0 + q] == (
                BuilderCall::ProcessTileset { set_id: q as usize, ok: true }) by {
                    assert(log_b[l0 + q] == self.log()[l0 + q]);
                }
            }
            if let Err(cause) = processed {
                proof {
                    let seg = self.log().skip(l0);
                    assert forall|q: int| 0 <= q < id implies #[trigger] seg[q] == (
                    BuilderCall::ProcessTileset { set_id: q as usize, ok: true }) by {
                        assert(seg[q] == self.log()[l0 + q]);
                    }
                    assert(seg[id as int] == self.log()[l0 + id]);
                    lemma_tilesets_accepted(seg, m, 0, id as int);
                    assert(tilesets_from(seg, m, id as int) == Some((id + 1, true)));
                }
                return Err(MapSchemeError::Tileset { set_id: id, cause });
            }
            id = id + 1;
        }
        let ghost top0 = l0 + m;
        let ghost pre = self.log();
        proof {
            assert(m == id);
        }
        let ghost idx_start = self.spec_state().spec_layer_idx();
        proof {
            assert forall|x: Seq<BuilderCall>| check_top(
                map.layers@,
                idx_start,
                map.width,
                map.height,
                self.textures(),
                self.log().skip(top0) + x,
                0,
            ) == shift_top(
                self.log().len() - top0,
                #[trigger] check_top(
                    map.layers@,
                    idx_start,
                    map.width,
                    map.height,
                    self.textures(),
                    x,
                    0,
                ),
            ) by {
                assert(self.log().skip(top0) + x =~= x);
                match check_top(map.layers@, idx_start, map.width, map.height, self.textures(), x, 0) {
                    Some((a, b, c)) => {},
                    None => {},
                }
            }
        }
        let ghost idx0 = self.spec_state().spec_layer_idx();
        let mut out: Vec<SceneNode> = Vec::new();
        proof {
            match plan_map(*map, idx0, self.textures()) {
                Ok((rest, _)) => {
                    assert(Seq::<SceneNodeV>::empty() + rest =~= rest);
                },
                Err(_) => {},
            }
            assert(nodes_view(out@) =~= Seq::<SceneNodeV>::empty());
        }
        let mut i: usize = 0;
        while i < map.layers.len()
            invariant
                i <= map.layers@.len(),
                idx0 == old(self).spec_state().spec_layer_idx(),
                self.textures() == old(self).textures(),
                layers_ok(map.layers@, map.width, map.height, self.textures(), map.tilesets@.len(), 0),
                idx_start == idx0,
                m <= usize::MAX,
                l0 == log0.len(),
                log0 == old(self).log(),
                m == map.tilesets@.len(),
                top0 == l0 + m,
                pre.len() == top0,
                pre.take(l0) == log0,
                forall|q: int|
                    0 <= q < m ==> #[trigger] pre[l0 + q] == (BuilderCall::ProcessTileset {
                        set_id: q as usize,
                        ok: true,
                    }),
                self.log().len() >= top0,
                self.log().take(top0) == pre,
                forall|x: Seq<BuilderCall>| check_top(
                    map.layers@,
                    idx0,
                    map.width,
                    map.height,
                    self.textures(),
                    self.log().skip(top0) + x,
                    0,
                ) == shift_top(
                    self.log().len() - top0,
                    #[trigger] check_top(
                        map.layers@,
                        self.spec_state().spec_layer_idx(),
                        map.width,
                        map.height,
                        self.textures(),
                        x,
                        i as int,
                    ),
                ),
                plan_map(*map, idx0, self.textures()) == prepend_top(
                    nodes_view(out@),
                    plan_top(
                        map.layers@,
                        out@.len() as nat,
                        self.spec_state().spec_layer_idx(),
                        map.width,
                        map.height,
                        self.textures(),
                        i as int,
                    ),
                ),
            decreases map.layers@.len() - i,
        {
            proof {
                lemma_layers_ok_at(map.layers@, map.width, map.height, self.textures(), map.tilesets@.len(), i as int);
            }
            let ghost out_before = nodes_view(out@);
            let ghost idx_before = self.spec_state().spec_layer_idx();
            let ghost log_b = self.log();
            let res = self.parse_layer(&map.layers[i], None, &mut out, map.width, map.height, &map.tilesets);
            proof {
                let lb = log_b.len() as int;
                let tex = self.textures();
                let (mw, mh) = (map.width, map.height);
                let big_s = log_b.skip(top0);
                let big_t = self.log().skip(lb);
                assert(self.log().take(top0) =~= pre) by {
                    assert forall|k: int| 0 <= k < top0 implies #[trigger] self.log().take(top0)[k]
                        == pre[k] by {
                        assert(self.log().take(lb)[k] == log_b[k]);
                        assert(log_b.take(top0)[k] == pre[k]);
                    }
                }
                assert(self.log().skip(top0) =~= big_s + big_t) by {
                    assert forall|k: int| 0 <= k < self.log().len() - top0 implies #[trigger] self.log().skip(
                        top0,
                    )[k] == (big_s + big_t)[k] by {
                        if k < big_s.len() {
                            assert(self.log().take(lb)[top0 + k] == log_b[top0 + k]);
                        }
                    }
                }
                assert(check_top(map.layers@, idx0, mw, mh, tex, big_s + big_t, 0) == shift_top(
                    big_s.len() as int,
                    check_top(map.layers@, idx_before, mw, mh, tex, big_t, i as int),
                ));
                if res is Ok {
                    let idx_new = self.spec_state().spec_layer_idx();
                    assert forall|x: Seq<BuilderCall>| check_top(
                        map.layers@,
                        idx0,
                        mw,
                        mh,
                        tex,
                        self.log().skip(top0) + x,
                        0,
                    ) == shift_top(
                        self.log().len() - top0,
                        #[trigger] check_top(map.layers@, idx_new, mw, mh, tex, x, i + 1),
                    ) by {
                        lemma_check_layer_extend(map.layers@[i as int], idx_before, mw, mh, tex, big_t, x);
                        assert((big_t + x).skip(big_t.len() as int) =~= x);
                        assert(check_top(map.layers@, idx0, mw, mh, tex, big_s + (big_t + x), 0)
                            == shift_top(
                            big_s.len() as int,
                            check_top(map.layers@, idx_before, mw, mh, tex, big_t + x, i as int),
                        ));
                        assert(big_s + (big_t + x) =~= (big_s + big_t) + x);
                        match check_top(map.layers@, idx_new, mw, mh, tex, x, i + 1) {
                            Some((a, b, c)) => {},
                            None => {},
                        }
                    }
                }
                let seg = self.log().skip(l0);
                assert forall|q: int| 0 <= q < m implies #[trigger] seg[q] == (
                BuilderCall::ProcessTileset { set_id: q as usize, ok: true }) by {
                    assert(seg[q] == self.log()[l0 + q]);
                    assert(self.log().take(top0)[l0 + q] == pre[l0 + q]);
                }
                lemma_tilesets_accepted(seg, m, 0, m);
                assert(seg.skip(m) =~= self.log().skip(top0));
                assert(self.log().take(l0) =~= log0) by {
                    assert forall|k: int| 0 <= k < l0 implies #[trigger] self.log().take(l0)[k]
                        == log0[k] by {
                        assert(self.log().take(top0)[k] == pre[k]);
                        assert(pre.take(l0)[k] == log0[k]);
                    }
                }
                if res is Err && fault_of(res->Err_0) is Some {
                    assert(plan_top(
                        map.layers@,
                        out_before.len(),
                        idx_before,
                        map.width,
                        map.height,
                        self.textures(),
                        i as int,
                    ) == Err::<(Seq<SceneNodeV>, u32), (Seq<char>, LayerFault)>(
                        (map.layers@[i as int].name@, fault_of(res->Err_0)->0),
                    ));
                }
                let now = nodes_view(out@);
                let first = now.skip(out_before.len() as int);
                assert(now =~= out_before + first) by {
                    assert(now.take(out_before.len() as int) == out_before);
                    assert forall|k: int| 0 <= k < now.len() implies #[trigger] now[k] == (out_before + first)[k] by {
                        if k < out_before.len() {
                            assert(now.take(out_before.len() as int)[k] == now[k]);
                        }
                    }
                }
                if res is Ok {
                    match plan_top(
                        map.layers@,
                        out@.len() as nat,
                        self.spec_state().spec_layer_idx(),
                        map.width,
                        map.height,
                        self.textures(),
                        i + 1,
                    ) {
                        Ok((rest, _)) => {
                            assert(out_before + (first + rest) =~= (out_before + first) + rest);
                        },
                        Err(_) => {},
                    }
                }
            }
            if let Err(cause) = res {
                return Err(MapSchemeError::Layer { name: map.layers[i].name.clone(), cause });
            }
            i = i + 1;
        }
        proof {
            assert(nodes_view(out@) + Seq::<SceneNodeV>::empty() =~= nodes_view(out@));
            let tex = self.textures();
            assert(self.log().skip(top0) + Seq::<BuilderCall>::empty() =~= self.log().skip(top0));
            assert(check_top(
                map.layers@,
                idx0,
                map.width,
                map.height,
                tex,
                self.log().skip(top0) + Seq::<BuilderCall>::empty(),
                0,
            ) == shift_top(
                self.log().len() - top0,
                check_top(
                    map.layers@,
                    self.spec_state().spec_layer_idx(),
                    map.width,
                    map.height,
                    tex,
                    Seq::<BuilderCall>::empty(),
                    i as int,
                ),
            ));
            let seg = self.log().skip(l0);
            assert forall|q: int| 0 <= q < m implies #[trigger] seg[q] == (
            BuilderCall::ProcessTileset { set_id: q as usize, ok: true }) by {
                assert(seg[q] == self.log()[l0 + q]);
                assert(self.log().take(top0)[l0 + q] == pre[l0 + q]);
            }
            lemma_tilesets_accepted(seg, m, 0, m);
            assert(seg.skip(m) =~= self.log().skip(top0));
            assert(self.log().skip(top0) + Seq::<BuilderCall>::empty() == self.log().skip(top0));
            assert(tilesets_from(seg, m, 0) == Some((m, false)));
            assert(self.log().take(l0) =~= log0) by {
                assert forall|k: int| 0 <= k < l0 implies #[trigger] self.log().take(l0)[k]
                    == log0[k] by {
                    assert(self.log().take(top0)[k] == pre[k]);
                    assert(pre.take(l0)[k] == log0[k]);
                }
            }
        }
        Ok(out)
    }
}

/// Every layer from position `i` on can be placed, the one at `i` too.
pub proof fn lemma_layers_ok_at(
    ls: Seq<Layer>,
    w: u32,
    h: u32,
    textures: Seq<(TilesetIndexing, usize)>,
    n: nat,
    i: int,
)
    requires
        layers_ok(ls, w, h, textures, n, 0),
        0 <= i < ls.len(),
    ensures
        layer_ok(ls[i], w, h, textures, n),
        layers_ok(ls, w, h, textures, n, i + 1),
    decreases i,
{
    lemma_layers_ok_from(ls, w, h, textures, n, 0, i);
}

/// Every layer from position `i` on can be placed, so every layer from a
/// later position on can too.
pub proof fn lemma_layers_ok_from(
    ls: Seq<Layer>,
    w: u32,
    h: u32,
    textures: Seq<(TilesetIndexing, usize)>,
    n: nat,
    i: int,
    k: int,
)
    requires
        layers_ok(ls, w, h, textures, n, i),
        0 <= i <= k < ls.len(),
    ensures
        layer_ok(ls[k], w, h, textures, n),
        layers_ok(ls, w, h, textures, n, k + 1),
    decreases k - i,
{
    if i < k {
        lemma_layers_ok_from(ls, w, h, textures, n, i + 1, k);
    }
}


/// Each node of a layer's scene is in a node placed before it, where the
/// layer is in a node before `base`.
pub proof fn lemma_plan_layer_parents(
    l: Layer,
    parent: Option<usize>,
    base: nat,
    idx: u32,
    w: u32,
    h: u32,
    textures: Seq<(TilesetIndexing, usize)>,
)
    requires
        parent matches Some(p) ==> p < base,
    ensures
        plan_layer(l, parent, base, idx, w, h, textures) matches Ok((nodes, _)) ==> forall|i: int|
            0 <= i < nodes.len() ==> (#[trigger] nodes[i]).parent_before(base + i),
    decreases l, 0int,
{
    match l.kind {
        LayerKind::Group(g) => {
            lemma_plan_layers_parents(g@, Some(base as usize), base + 1, idx, w, h, textures, 0);
            match plan_layers(g@, Some(base as usize), base + 1, idx, w, h, textures, 0) {
                Ok((nodes, _)) => {
                    let node = SceneNodeV { name: l.name@, parent, kind: SceneKindV::Group };
                    assert forall|i: int| 0 <= i < 1 + nodes.len() implies (#[trigger] (seq![node]
                        + nodes)[i]).parent_before(base + i) by {
                        if i > 0 {
                            assert((seq![node] + nodes)[i] == nodes[i - 1]);
                        }
                    }
                },
                Err(_) => {},
            }
        },
        _ => {},
    }
}

/// Each node of the scene of a list of layers is in a node placed before
/// it.
pub proof fn lemma_plan_layers_parents(
    ls: Seq<Layer>,
    parent: Option<usize>,
    base: nat,
    idx: u32,
    w: u32,
    h: u32,
    textures: Seq<(TilesetIndexing, usize)>,
    i: int,
)
    requires
        parent matches Some(p) ==> p < base,
    ensures
        plan_layers(ls, parent, base, idx, w, h, textures, i) matches Ok((nodes, _)) ==> forall|k: int|
            0 <= k < nodes.len() ==> (#[trigger] nodes[k]).parent_before(base + k),
    decreases ls, ls.len() - i,
{
    if 0 <= i < ls.len() {
        lemma_plan_layer_parents(ls[i], parent, base, idx, w, h, textures);
        match plan_layer(ls[i], parent, base, idx, w, h, textures) {
            Ok((first, after)) => {
                lemma_plan_layers_parents(ls, parent, base + first.len(), after, w, h, textures, i + 1);
                match plan_layers(ls, parent, base + first.len(), after, w, h, textures, i + 1) {
                    Ok((rest, _)) => {
                        assert forall|k: int| 0 <= k < first.len() + rest.len() implies (#[trigger] (
                        first + rest)[k]).parent_before(base + k) by {
                            if k < first.len() {
                                assert((first + rest)[k] == first[k]);
                            } else {
                                assert((first + rest)[k] == rest[k - first.len()]);
                            }
                        }
                    },
                    Err(_) => {},
                }
            },
            Err(_) => {},
        }
    }
}

/// Each node of the scene of the top-level layers from position `i` on is
/// at the top or in a node placed before it.
pub proof fn lemma_plan_top_parents(
    ls: Seq<Layer>,
    base: nat,
    idx: u32,
    w: u32,
    h: u32,
    textures: Seq<(TilesetIndexing, usize)>,
    i: int,
)
    ensures
        plan_top(ls, base, idx, w, h, textures, i) matches Ok((nodes, _)) ==> forall|k: int|
            0 <= k < nodes.len() ==> (#[trigger] nodes[k]).parent_before(base + k),
    decreases ls.len() - i,
{
    if 0 <= i < ls.len() {
        lemma_plan_layer_parents(ls[i], None, base, idx, w, h, textures);
        match plan_layer(ls[i], None, base, idx, w, h, textures) {
            Ok((first, after)) => {
                lemma_plan_top_parents(ls, base + first.len(), after, w, h, textures, i + 1);
                match plan_top(ls, base + first.len(), after, w, h, textures, i + 1) {
                    Ok((rest, _)) => {
                        assert forall|k: int| 0 <= k < first.len() + rest.len() implies (#[trigger] (
                        first + rest)[k]).parent_before(base + k) by {
                            if k < first.len() {
                                assert((first + rest)[k] == first[k]);
                            } else {
                                assert((first + rest)[k] == rest[k - first.len()]);
                            }
                        }
                    },
                    Err(_) => {},
                }
            },
            Err(_) => {},
        }
    }
}

/// The scene of a map is a tree laid out in order: every layer is at the
/// top of the map or in a group placed before it.
pub proof fn law_scene_nodes_follow_their_parents(
    map: MapData,
    idx: u32,
    textures: Seq<(TilesetIndexing, usize)>,
)
    ensures
        plan_map(map, idx, textures) matches Ok((nodes, _)) ==> forall|k: int|
            0 <= k < nodes.len() ==> (#[trigger] nodes[k]).parent_before(k),
{
    lemma_plan_top_parents(map.layers@, 0, idx, map.width, map.height, textures, 0);
}

} // verus!
