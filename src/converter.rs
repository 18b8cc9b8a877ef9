use vstd::prelude::*;

use crate::colours::{transparent, transparent_spec, Rgba};
use crate::image::{
    create_image_from_sprite_data, create_spritesheet, image_pixels, lemma_grid_bound,
    lemma_grid_unique, rgba_bytes, is_grid_size, is_pow2,
    sheet_pixels, sheet_side, sprite_pixels, RgbaImage, CELL_HEIGHT, CELL_PIXELS, CELL_WIDTH,
    MAX_SHEET_SPRITES,
};
use crate::error::{Error, GameConversionError};
use crate::raw_game::{JswRawCell, JswRawGame, JswRawRoom, ROOM_LAYOUT_SIZE};
use crate::tiled::{Layer, LayerType, MapOrientation, TiledMap, Tileset};
use vstd::string::StringExecFns;

verus! {

/// Converts decoded games into tile maps with a sprite sheet.
pub struct RawToTiledConverter;

/// The sprites seen so far, deduplicated by their pixels; sprite `k` has id `k + 1`.
pub struct SpriteSetContext {
    pub sprites: Vec<RgbaImage>,
    pub next_sprite_id: u32,
}

/// No two sprites are the same.
pub open spec fn all_distinct(s: Seq<Seq<Rgba>>) -> bool {
    forall|i: int, j: int| 0 <= i < s.len() && 0 <= j < s.len() && i != j ==> s[i] != s[j]
}

/// The id that a sprite gets, and the sprite set after it: an equal sprite already in
/// the set keeps its id; a new one is appended with the next id.
pub open spec fn lookup(s: Seq<Seq<Rgba>>, img: Seq<Rgba>) -> (Seq<Seq<Rgba>>, u32) {
    if exists|k: int| 0 <= k < s.len() && s[k] == img {
        (s, ((choose|k: int| 0 <= k < s.len() && s[k] == img) + 1) as u32)
    } else {
        (s.push(img), (s.len() + 1) as u32)
    }
}

/// The background sprite of a cell: its paper colour everywhere.
pub open spec fn bg_sprite(c: JswRawCell) -> Seq<Rgba> {
    sprite_pixels(seq![0u8, 0, 0, 0, 0, 0, 0, 0], transparent_spec(), c.paper)
}

/// The foreground sprite of a cell: its bitmap in its ink colour on transparency.
pub open spec fn fg_sprite(c: JswRawCell) -> Seq<Rgba> {
    sprite_pixels(c.sprite@, c.ink, transparent_spec())
}

/// The sprite set after the cells, in order, have had their background and then their
/// foreground sprite looked up; and each cell's two ids.
pub open spec fn cell_ids(s: Seq<Seq<Rgba>>, cells: Seq<JswRawCell>) -> (Seq<Seq<Rgba>>, Seq<(u32, u32)>)
    decreases cells.len(),
{
    if cells.len() == 0 {
        (s, seq![])
    } else {
        let (s1, ids) = cell_ids(s, cells.drop_last());
        let (s2, b) = lookup(s1, bg_sprite(cells.last()));
        let (s3, f) = lookup(s2, fg_sprite(cells.last()));
        (s3, ids.push((b, f)))
    }
}

impl SpriteSetContext {
    /// The sprites' pixels.
    pub open spec fn view_sprites(&self) -> Seq<Seq<Rgba>> {
        image_pixels(self.sprites@)
    }

    /// Ids are dense from 1, sprites are 8×8 and distinct, and the set fits a sheet.
    pub open spec fn wf(&self) -> bool {
        &&& self.next_sprite_id == self.sprites@.len() + 1
        &&& self.sprites@.len() <= MAX_SHEET_SPRITES
        &&& all_distinct(self.view_sprites())
        &&& forall|i: int| 0 <= i < self.sprites@.len() ==> (#[trigger] self.sprites@[i]).pixels@.len() == CELL_PIXELS
    }

    /// An empty set; the first id is 1.
    pub fn new() -> (r: Self)
        ensures
            r.wf(),
            r.view_sprites() == Seq::<Seq<Rgba>>::empty(),
    {
        let r = SpriteSetContext { sprites: Vec::new(), next_sprite_id: 1 };
        assert(r.view_sprites() =~= Seq::<Seq<Rgba>>::empty());
        r
    }

    /// Hands out the next id.
    pub fn get_next_sprite_id(&mut self) -> (r: u32)
        requires
            old(self).next_sprite_id < u32::MAX,
        ensures
            r == old(self).next_sprite_id,
            final(self).next_sprite_id == r + 1,
            final(self).sprites == old(self).sprites,
    {
        let id = self.next_sprite_id;
        self.next_sprite_id = self.next_sprite_id + 1;
        id
    }

    /// The id of a sprite, added to the set when no equal sprite is in it yet.
    pub fn find_sprite_id(&mut self, image: RgbaImage) -> (r: u32)
        requires
            old(self).wf(),
            old(self).sprites@.len() < MAX_SHEET_SPRITES,
            image.pixels@.len() == CELL_PIXELS,
        ensures
            final(self).wf(),
            final(self).sprites@.len() <= old(self).sprites@.len() + 1,
            (final(self).view_sprites(), r) == lookup(old(self).view_sprites(), image.pixels@),
    {
        let ghost s = self.view_sprites();
        let mut k: usize = 0;
        while k < self.sprites.len()
            invariant
                self.wf(),
                s == self.view_sprites(),
                k <= self.sprites@.len(),
                forall|j: int| 0 <= j < k ==> s[j] != image.pixels@,
            decreases self.sprites@.len() - k,
        {
            if same_pixels(&self.sprites[k].pixels, &image.pixels) {
                proof {
                    let c = choose|j: int| 0 <= j < s.len() && s[j] == image.pixels@;
                    assert(s[k as int] == image.pixels@);
                    assert(c == k);
                }
                return k as u32 + 1;
            }
            k = k + 1;
        }
        let id = self.get_next_sprite_id();
        self.sprites.push(image);
        proof {
            assert(self.view_sprites() =~= s.push(image.pixels@));
            assert forall|i: int, j: int|
                0 <= i < self.view_sprites().len() && 0 <= j < self.view_sprites().len() && i != j
                implies self.view_sprites()[i] != self.view_sprites()[j] by {
                if i < s.len() && j < s.len() {
                } else if i == s.len() {
                    assert(s[j] != image.pixels@);
                } else {
                    assert(s[i] != image.pixels@);
                }
            }
            assert forall|i: int| 0 <= i < self.sprites@.len() implies (#[trigger] self.sprites@[i]).pixels@.len() == CELL_PIXELS by {
                if i < s.len() {
                    assert(old(self).sprites@[i] == self.sprites@[i]);
                }
            }
        }
        id
    }
}

/// Map width in tiles.
pub const MAP_WIDTH: u32 = 32;
/// Map height in tiles.
pub const MAP_HEIGHT: u32 = 24;
/// Tiles of one map layer.
pub const MAP_TILES: usize = 768;

/// Index of the first cell from `j` on whose id is `v`, or -1.
pub open spec fn first_cell_from(cells: Seq<JswRawCell>, v: u8, j: int) -> int
    decreases cells.len() - j,
{
    if j < 0 || j >= cells.len() {
        -1
    } else if cells[j].id == v {
        j
    } else {
        first_cell_from(cells, v, j + 1)
    }
}

/// The cell that layout value `v` shows: the first with that id, else the first cell.
pub open spec fn tile_cell(cells: Seq<JswRawCell>, v: u8) -> int {
    let j = first_cell_from(cells, v, 0);
    if j >= 0 {
        j
    } else {
        0
    }
}

/// A room's background (`fg` false) or foreground tile ids on the map: the leading
/// layout positions, row-major, take the ids of the cells they show; the rest stay 0.
pub open spec fn grid_spec(layout: Seq<u8>, cells: Seq<JswRawCell>, ids: Seq<(u32, u32)>, fg: bool) -> Seq<u32> {
    Seq::new(
        MAP_TILES as nat,
        |k: int|
            if k < layout.len() && k < ROOM_LAYOUT_SIZE {
                let j = tile_cell(cells, layout[k]);
                if fg {
                    ids[j].1
                } else {
                    ids[j].0
                }
            } else {
                0u32
            },
    )
}

/// `l` is a visible layer of the given kind, id, name and class with `data` as tiles
/// (tile layers) or no tiles (object groups).
pub open spec fn sub_layer_ok(l: Layer, typ: LayerType, id: u32, name: Seq<char>, class: Seq<char>, data: Seq<u32>) -> bool {
    &&& l.typ == typ
    &&& l.id == id
    &&& l.name@ == name
    &&& l.class matches Some(c) && c@ == class
    &&& l.visible
    &&& l.layers is None
    &&& typ == LayerType::TileLayer ==> (l.data matches Some(d) && d@ == data && l.width == Some(
        MAP_WIDTH,
    ) && l.height == Some(MAP_HEIGHT))
    &&& typ != LayerType::TileLayer ==> l.data is None
}

/// `l` is the layer group of `room` with ids from `id`: background tiles, an empty
/// object layer and foreground tiles, in that order.
pub open spec fn room_layer_ok(l: Layer, room: JswRawRoom, id: u32, ids: Seq<(u32, u32)>) -> bool {
    &&& l.typ == LayerType::Group
    &&& l.id == id
    &&& l.name@ == room.name@
    &&& l.data is None
    &&& l.layers matches Some(v) && v@.len() == 3 && sub_layer_ok(
        v@[0],
        LayerType::TileLayer,
        (id + 1) as u32,
        "Background 1"@,
        "bg"@,
        grid_spec(room.layout@, room.cells@, ids, false),
    ) && sub_layer_ok(
        v@[1],
        LayerType::ObjectGroup,
        (id + 2) as u32,
        "Dynamic 1"@,
        "dynamic"@,
        seq![],
    ) && sub_layer_ok(
        v@[2],
        LayerType::TileLayer,
        (id + 3) as u32,
        "Foreground 1"@,
        "fg"@,
        grid_spec(room.layout@, room.cells@, ids, true),
    )
}

/// The error for a room without cells.
pub open spec fn no_cells_error(e: Error, room: JswRawRoom) -> bool {
    e matches Error::GameConversionFailed { mode: GameConversionError::RoomConversionFailed { room: name }, .. }
        && name@ == room.name@
}

/// Index of the first cell whose id is `v`, else 0.
pub fn find_tile_cell(cells: &Vec<JswRawCell>, v: u8) -> (r: usize)
    ensures
        r == tile_cell(cells@, v),
{
    let mut j: usize = 0;
    while j < cells.len()
        invariant
            j <= cells@.len(),
            first_cell_from(cells@, v, j as int) == first_cell_from(cells@, v, 0),
        decreases cells@.len() - j,
    {
        if cells[j].id == v {
            return j;
        }
        j = j + 1;
    }
    0
}

/// Looks up the background and foreground sprite of each cell, in order.
pub fn convert_cells(context: &mut SpriteSetContext, cells: &Vec<JswRawCell>) -> (r: Vec<(u32, u32)>)
    requires
        old(context).wf(),
        old(context).sprites@.len() + 2 * cells@.len() <= MAX_SHEET_SPRITES,
    ensures
        final(context).wf(),
        final(context).sprites@.len() <= old(context).sprites@.len() + 2 * cells@.len(),
        (final(context).view_sprites(), r@) == cell_ids(old(context).view_sprites(), cells@),
{
    let ghost s0 = context.view_sprites();
    let blank: Vec<u8> = vec![0u8; 8];
    assert(blank@ =~= seq![0u8, 0, 0, 0, 0, 0, 0, 0]);
    let mut ids: Vec<(u32, u32)> = Vec::new();
    let mut i: usize = 0;
    while i < cells.len()
        invariant
            context.wf(),
            blank@ == seq![0u8, 0, 0, 0, 0, 0, 0, 0],
            i <= cells@.len(),
            context.sprites@.len() <= old(context).sprites@.len() + 2 * i,
            old(context).sprites@.len() + 2 * cells@.len() <= MAX_SHEET_SPRITES,
            s0 == old(context).view_sprites(),
            (context.view_sprites(), ids@) == cell_ids(s0, cells@.take(i as int)),
        decreases cells@.len() - i,
    {
        let cell = cells[i];
        let bg = match create_image_from_sprite_data(blank.as_slice(), transparent(), cell.paper) {
            Ok(img) => img,
            Err(_) => {
                return ids;
            },
        };
        let fg = match create_image_from_sprite_data(cell.sprite.as_slice(), cell.ink, transparent()) {
            Ok(img) => img,
            Err(_) => {
                return ids;
            },
        };
        let b = context.find_sprite_id(bg);
        let f = context.find_sprite_id(fg);
        ids.push((b, f));
        assert(cells@.take(i + 1).drop_last() =~= cells@.take(i as int));
        assert(cells@.take(i + 1).last() == cell);
        i = i + 1;
    }
    assert(cells@.take(cells@.len() as int) =~= cells@);
    ids
}

/// A room's background or foreground tile ids on the map.
pub fn fill_grid(room: &JswRawRoom, ids: &Vec<(u32, u32)>, fg: bool) -> (r: Vec<u32>)
    requires
        ids@.len() == room.cells@.len(),
        room.cells@.len() > 0,
    ensures
        r@ == grid_spec(room.layout@, room.cells@, ids@, fg),
{
    let mut grid: Vec<u32> = Vec::new();
    let mut k: usize = 0;
    while k < MAP_TILES
        invariant
            ids@.len() == room.cells@.len(),
            room.cells@.len() > 0,
            k <= MAP_TILES,
            grid@ == grid_spec(room.layout@, room.cells@, ids@, fg).take(k as int),
        decreases MAP_TILES - k,
    {
        let v: u32 = if k < room.layout.len() && k < ROOM_LAYOUT_SIZE {
            let j = find_tile_cell(&room.cells, room.layout[k]);
            proof {
                let f = first_cell_from(room.cells@, room.layout@[k as int], 0);
                assert(f < room.cells@.len()) by {
                    lemma_first_cell_bound(room.cells@, room.layout@[k as int], 0);
                }
            }
            if fg {
                ids[j].1
            } else {
                ids[j].0
            }
        } else {
            0
        };
        grid.push(v);
        assert(grid@ =~= grid_spec(room.layout@, room.cells@, ids@, fg).take(k + 1));
        k = k + 1;
    }
    assert(grid@ =~= grid_spec(room.layout@, room.cells@, ids@, fg));
    grid
}

proof fn lemma_first_cell_bound(cells: Seq<JswRawCell>, v: u8, j: int)
    ensures
        first_cell_from(cells, v, j) < cells.len(),
        first_cell_from(cells, v, j) >= -1,
    decreases cells.len() - j,
{
    if j >= 0 && j < cells.len() && cells[j].id != v {
        lemma_first_cell_bound(cells, v, j + 1);
    }
}

/// A visible layer with a class tag.
fn tagged_layer(map: &mut TiledMap, typ: LayerType, name: &str, class: &str) -> (r: Layer)
    requires
        old(map).nextlayerid < u32::MAX,
        old(map).width == MAP_WIDTH,
        old(map).height == MAP_HEIGHT,
    ensures
        final(map).nextlayerid == old(map).nextlayerid + 1,
        final(map).nextobjectid == old(map).nextobjectid,
        final(map).width == old(map).width,
        final(map).height == old(map).height,
        final(map).layers == old(map).layers,
        final(map).tilesets == old(map).tilesets,
        final(map).tilewidth == old(map).tilewidth,
        final(map).tileheight == old(map).tileheight,
        final(map).orientation == old(map).orientation,
        sub_layer_ok(r, typ, old(map).nextlayerid, name@, class@, Seq::new(MAP_TILES as nat, |k: int| 0u32)),
{
    let mut l = Layer::new(map, typ, String::from_str(name));
    l.class = Some(String::from_str(class));
    l.visible = true;
    l
}

/// Converts one room into its layer group: looks up the sprites of its cells and lays
/// out their ids on a background and a foreground tile layer. A room without cells
/// cannot be shown and is refused, by name.
pub fn convert_room(context: &mut SpriteSetContext, map: &mut TiledMap, room: &JswRawRoom) -> (r: Result<Layer, Error>)
    requires
        old(context).wf(),
        old(context).sprites@.len() + 2 * room.cells@.len() <= MAX_SHEET_SPRITES,
        old(map).nextlayerid < u32::MAX - 4,
        old(map).width == MAP_WIDTH,
        old(map).height == MAP_HEIGHT,
    ensures
        room.cells@.len() == 0 <==> r is Err,
        r matches Err(e) ==> no_cells_error(e, *room),
        r is Ok ==> final(context).wf() && final(map).nextlayerid == old(map).nextlayerid + 4,
        r is Ok ==> final(context).sprites@.len() <= old(context).sprites@.len() + 2 * room.cells@.len(),
        final(map).width == old(map).width,
        final(map).height == old(map).height,
        final(map).layers == old(map).layers,
        final(map).tilesets == old(map).tilesets,
        final(map).tilewidth == old(map).tilewidth,
        final(map).tileheight == old(map).tileheight,
        final(map).orientation == old(map).orientation,
        r matches Ok(l) ==> ({
            let (s, ids) = cell_ids(old(context).view_sprites(), room.cells@);
            final(context).view_sprites() == s && room_layer_ok(l, *room, old(map).nextlayerid, ids)
        }),
{
    if room.cells.len() == 0 {
        return Err(
            Error::GameConversionFailed {
                mode: GameConversionError::RoomConversionFailed { room: room.name.clone() },
                message: String::from_str("No cells found"),
            },
        );
    }
    let mut room_layer = Layer::new(map, LayerType::Group, room.name.clone());
    let mut bg_layer = tagged_layer(map, LayerType::TileLayer, "Background 1", "bg");
    let object_layer = tagged_layer(map, LayerType::ObjectGroup, "Dynamic 1", "dynamic");
    let mut fg_layer = tagged_layer(map, LayerType::TileLayer, "Foreground 1", "fg");
    let ids = convert_cells(context, &room.cells);
    proof {
        lemma_cell_ids_len(old(context).view_sprites(), room.cells@);
    }
    bg_layer.data = Some(fill_grid(room, &ids, false));
    fg_layer.data = Some(fill_grid(room, &ids, true));
    let mut sub_layers: Vec<Layer> = Vec::new();
    sub_layers.push(bg_layer);
    sub_layers.push(object_layer);
    sub_layers.push(fg_layer);
    room_layer.layers = Some(sub_layers);
    Ok(room_layer)
}

proof fn lemma_cell_ids_len(s: Seq<Seq<Rgba>>, cells: Seq<JswRawCell>)
    ensures
        cell_ids(s, cells).1.len() == cells.len(),
    decreases cells.len(),
{
    if cells.len() > 0 {
        lemma_cell_ids_len(s, cells.drop_last());
    }
}

/// The rooms' sprites fit one sheet and their layer ids fit 32 bits.
pub open spec fn fits_one_sheet(rooms: Seq<JswRawRoom>) -> bool {
    2 * total_cells(rooms) <= MAX_SHEET_SPRITES && 4 * rooms.len() + 1 < u32::MAX
}

/// Whether the rooms' sprites fit one sheet and their layer ids fit 32 bits.
pub fn fits_sheet(rooms: &Vec<JswRawRoom>) -> (r: bool)
    ensures
        r == fits_one_sheet(rooms@),
{
    let n = rooms.len();
    if n >= 0x4000_0000 {
        return false;
    }
    let mut total: usize = 0;
    let mut i: usize = 0;
    assert(rooms@.take(0) =~= Seq::<JswRawRoom>::empty());
    while i < n
        invariant
            n == rooms@.len(),
            n < 0x4000_0000,
            i <= n,
            total == total_cells(rooms@.take(i as int)),
            2 * total <= MAX_SHEET_SPRITES,
        decreases n - i,
    {
        proof {
            lemma_total_cells_step(rooms@, i as int);
        }
        let c = rooms[i].cells.len();
        if c > MAX_SHEET_SPRITES || 2 * (total + c) > MAX_SHEET_SPRITES {
            proof {
                lemma_total_cells_prefix(rooms@, i + 1);
            }
            return false;
        }
        total = total + c;
        i = i + 1;
    }
    assert(rooms@.take(n as int) =~= rooms@);
    true
}

/// Cells over all rooms.
pub open spec fn total_cells(rooms: Seq<JswRawRoom>) -> int
    decreases rooms.len(),
{
    if rooms.len() == 0 {
        0
    } else {
        total_cells(rooms.drop_last()) + rooms.last().cells@.len()
    }
}

/// The sprite set after all rooms, in order, have had their cells' sprites looked up,
/// starting from an empty set; and each room's cell ids.
pub open spec fn rooms_ids(rooms: Seq<JswRawRoom>) -> (Seq<Seq<Rgba>>, Seq<Seq<(u32, u32)>>)
    decreases rooms.len(),
{
    if rooms.len() == 0 {
        (seq![], seq![])
    } else {
        let (s, ids) = rooms_ids(rooms.drop_last());
        let (s2, r) = cell_ids(s, rooms.last().cells@);
        (s2, ids.push(r))
    }
}

/// Room `n` is the first without cells.
pub open spec fn first_empty_room(rooms: Seq<JswRawRoom>, n: int) -> bool {
    &&& 0 <= n < rooms.len()
    &&& rooms[n].cells@.len() == 0
    &&& forall|m: int| 0 <= m < n ==> rooms[m].cells@.len() > 0
}

/// Every room has cells.
pub open spec fn all_rooms_have_cells(rooms: Seq<JswRawRoom>) -> bool {
    forall|m: int| 0 <= m < rooms.len() ==> rooms[m].cells@.len() > 0
}

/// Room groups in reverse room order: the last room's group comes first. Room `r` has
/// layer ids from `1 + 4 * r`.
pub open spec fn layers_ok(layers: Seq<Layer>, rooms: Seq<JswRawRoom>) -> bool {
    let ids = rooms_ids(rooms).1;
    &&& layers.len() == rooms.len()
    &&& forall|r: int|
        0 <= r < rooms.len() ==> room_layer_ok(
            #[trigger] layers[rooms.len() - 1 - r],
            rooms[r],
            (1 + 4 * r) as u32,
            ids[r],
        )
}

/// A map with its sprites and the sheet that packs them.
#[derive(Debug)]
pub struct MapWithSpritesheet {
    pub map: TiledMap,
    pub cell_spritesheet: RgbaImage,
    /// Sprite `k` has id `k + 1`.
    pub cell_sprites: Vec<RgbaImage>,
}

/// `out` is the conversion of `rooms`: the map of 32×24 tiles of 8×8 pixels, its room
/// groups, its sprites, its sheet and the one tileset that names the sheet.
pub open spec fn output_ok(out: MapWithSpritesheet, rooms: Seq<JswRawRoom>) -> bool {
    let sprites = rooms_ids(rooms).0;
    let side = out.cell_spritesheet.width as int;
    &&& out.map.width == MAP_WIDTH
    &&& out.map.height == MAP_HEIGHT
    &&& out.map.tilewidth == CELL_WIDTH
    &&& out.map.tileheight == CELL_HEIGHT
    &&& out.map.orientation == MapOrientation::Orthogonal
    &&& out.map.nextlayerid == 1 + 4 * rooms.len()
    &&& layers_ok(out.map.layers@, rooms)
    &&& image_pixels(out.cell_sprites@) == sprites
    &&& out.cell_spritesheet.height == out.cell_spritesheet.width
    &&& is_pow2(side)
    &&& exists|g: int|
        is_grid_size(g, sprites.len() as int) && side == sheet_side(g, sprites.len() as int)
            && out.cell_spritesheet.pixels@ == sheet_pixels(sprites, g, side)
    &&& out.map.tilesets@.len() == 1
    &&& out.map.tilesets@[0].name@ == "cells"@
    &&& out.map.tilesets@[0].image matches Some(i) && i@ == "gfx/cells.png"@
    &&& out.map.tilesets@[0].imagewidth == Some(side as i32)
    &&& out.map.tilesets@[0].imageheight == Some(side as i32)
    &&& out.map.tilesets@[0].columns == side / 8
    &&& out.map.tilesets@[0].tilecount == (side / 8) * (side / 8)
    &&& out.map.tilesets@[0].firstgid == 1
}

/// What converting `rooms` gives: the error naming the first room without cells, else
/// the converted map.
pub open spec fn conversion_ok(rooms: Seq<JswRawRoom>, r: Result<MapWithSpritesheet, Error>) -> bool {
    if all_rooms_have_cells(rooms) {
        r matches Ok(out) && output_ok(out, rooms)
    } else {
        r matches Err(e) && exists|n: int| first_empty_room(rooms, n) && no_cells_error(e, rooms[n])
    }
}

proof fn lemma_total_cells_step(rooms: Seq<JswRawRoom>, i: int)
    requires
        0 <= i < rooms.len(),
    ensures
        total_cells(rooms.take(i + 1)) == total_cells(rooms.take(i)) + rooms[i].cells@.len(),
        total_cells(rooms.take(i)) >= 0,
{
    assert(rooms.take(i + 1).drop_last() =~= rooms.take(i));
    lemma_total_cells_nonneg(rooms.take(i));
}

proof fn lemma_total_cells_nonneg(rooms: Seq<JswRawRoom>)
    ensures
        total_cells(rooms) >= 0,
    decreases rooms.len(),
{
    if rooms.len() > 0 {
        lemma_total_cells_nonneg(rooms.drop_last());
    }
}

proof fn lemma_total_cells_prefix(rooms: Seq<JswRawRoom>, i: int)
    requires
        0 <= i <= rooms.len(),
    ensures
        total_cells(rooms.take(i)) <= total_cells(rooms),
    decreases rooms.len() - i,
{
    if i < rooms.len() {
        lemma_total_cells_step(rooms, i);
        lemma_total_cells_prefix(rooms, i + 1);
    } else {
        assert(rooms.take(i) =~= rooms);
    }
}

impl RawToTiledConverter {
    /// Converts the rooms in order into layer groups, which come out in reverse order.
    pub fn convert_rooms(&self, context: &mut SpriteSetContext, map: &mut TiledMap, rooms: &Vec<JswRawRoom>) -> (r: Result<Vec<Layer>, Error>)
        requires
            old(context).wf(),
            old(context).view_sprites() == Seq::<Seq<Rgba>>::empty(),
            2 * total_cells(rooms@) <= MAX_SHEET_SPRITES,
            old(map).nextlayerid == 1,
            4 * rooms@.len() + 1 < u32::MAX,
            old(map).width == MAP_WIDTH,
            old(map).height == MAP_HEIGHT,
        ensures
            final(map).width == old(map).width,
            final(map).height == old(map).height,
            final(map).tilesets == old(map).tilesets,
        final(map).tilewidth == old(map).tilewidth,
        final(map).tileheight == old(map).tileheight,
        final(map).orientation == old(map).orientation,
            final(map).layers == old(map).layers,
            all_rooms_have_cells(rooms@) ==> (r matches Ok(layers) && layers_ok(layers@, rooms@)
                && final(context).view_sprites() == rooms_ids(rooms@).0 && final(context).wf()
                && final(map).nextlayerid == 1 + 4 * rooms@.len()),
            !all_rooms_have_cells(rooms@) ==> (r matches Err(e) && exists|n: int|
                first_empty_room(rooms@, n) && no_cells_error(e, rooms@[n])),
    {
        let mut layers: Vec<Layer> = Vec::new();
        let mut i: usize = 0;
        assert(rooms@.take(0) =~= Seq::<JswRawRoom>::empty());
        assert(context.sprites@.len() == context.view_sprites().len());
        while i < rooms.len()
            invariant
                context.wf(),
                old(map).width == MAP_WIDTH,
                old(map).height == MAP_HEIGHT,
                2 * total_cells(rooms@) <= MAX_SHEET_SPRITES,
                4 * rooms@.len() + 1 < u32::MAX,
                i <= rooms@.len(),
                map.width == MAP_WIDTH,
                map.height == MAP_HEIGHT,
                map.tilesets == old(map).tilesets,
                map.layers == old(map).layers,
                map.tilewidth == old(map).tilewidth,
                map.tileheight == old(map).tileheight,
                map.orientation == old(map).orientation,
                map.nextlayerid == 1 + 4 * i,
                context.sprites@.len() <= 2 * total_cells(rooms@.take(i as int)),
                context.view_sprites() == rooms_ids(rooms@.take(i as int)).0,
                layers@.len() == i,
                forall|m: int| 0 <= m < i ==> rooms@[m].cells@.len() > 0,
                forall|m: int|
                    0 <= m < i ==> room_layer_ok(
                        #[trigger] layers@[m],
                        rooms@[m],
                        (1 + 4 * m) as u32,
                        rooms_ids(rooms@.take(i as int)).1[m],
                    ),
                rooms_ids(rooms@.take(i as int)).1.len() == i,
            decreases rooms@.len() - i,
        {
            proof {
                lemma_total_cells_step(rooms@, i as int);
                lemma_total_cells_prefix(rooms@, i + 1);
                assert(rooms@.take(i + 1).drop_last() =~= rooms@.take(i as int));
                assert(rooms@.take(i + 1).last() == rooms@[i as int]);
            }
            let ghost prev_ids = rooms_ids(rooms@.take(i as int)).1;
            match convert_room(context, map, &rooms[i]) {
                Ok(l) => {
                    layers.push(l);
                },
                Err(e) => {
                    assert(first_empty_room(rooms@, i as int));
                    return Err(e);
                },
            }
            proof {
                let ids = rooms_ids(rooms@.take(i + 1)).1;
                assert(ids == prev_ids.push(cell_ids(rooms_ids(rooms@.take(i as int)).0, rooms@[i as int].cells@).1));
                assert forall|m: int| 0 <= m < i + 1 implies room_layer_ok(
                    #[trigger] layers@[m],
                    rooms@[m],
                    (1 + 4 * m) as u32,
                    ids[m],
                ) by {
                    if m < i {
                        assert(ids[m] == prev_ids[m]);
                    }
                }
            }
            i = i + 1;
        }
        assert(rooms@.take(rooms@.len() as int) =~= rooms@);
        let ghost forward = layers@;
        let mut reversed: Vec<Layer> = Vec::new();
        while layers.len() > 0
            invariant
                layers@.len() + reversed@.len() == forward.len(),
                layers@ == forward.take(layers@.len() as int),
                forall|j: int| 0 <= j < reversed@.len() ==> #[trigger] reversed@[j] == forward[forward.len() - 1 - j],
            decreases layers@.len(),
        {
            let l = layers.pop().unwrap();
            reversed.push(l);
            assert(layers@ =~= forward.take(layers@.len() as int));
        }
        proof {
            assert forall|r: int| 0 <= r < rooms@.len() implies room_layer_ok(
                #[trigger] reversed@[rooms@.len() - 1 - r],
                rooms@[r],
                (1 + 4 * r) as u32,
                rooms_ids(rooms@).1[r],
            ) by {
                assert(reversed@[rooms@.len() - 1 - r] == forward[r]);
            }
        }
        Ok(reversed)
    }
}

/// A conversion from one representation of a game to another.
pub trait Converter<I, O> {
    fn convert(&self, input: &I) -> O;
}

impl RawToTiledConverter {
    /// Converts a decoded game into a map of 32×24 tiles of 8×8 pixels: one layer group
    /// per room, last room first, and a sprite sheet holding every distinct sprite once,
    /// by id. Fails, naming the room, when a room has no cells.
    ///
    /// A game too large for one sheet (more than 2^19 cells over all rooms) is refused.
    pub fn convert(&self, raw_game: &JswRawGame) -> (r: Result<MapWithSpritesheet, Error>)
        ensures
            fits_one_sheet(raw_game.rooms@) ==> conversion_ok(raw_game.rooms@, r),
            !fits_one_sheet(raw_game.rooms@) ==> (r matches Err(e) && e is Custom),
    {
        if !fits_sheet(&raw_game.rooms) {
            return Err(Error::Custom(String::from_str("too many cells for one sprite sheet")));
        }
        let mut context = SpriteSetContext::new();
        let mut map = TiledMap::new(
            None,
            MapOrientation::Orthogonal,
            MAP_WIDTH,
            MAP_HEIGHT,
            CELL_WIDTH as u32,
            CELL_HEIGHT as u32,
        );
        let room_layers = match self.convert_rooms(&mut context, &mut map, &raw_game.rooms) {
            Ok(l) => l,
            Err(e) => {
                return Err(e);
            },
        };
        let sheet = self.create_cell_spritesheet(&context, &mut map);
        map.layers = room_layers;
        assert(context.view_sprites().len() == context.sprites@.len());
        Ok(MapWithSpritesheet { map, cell_spritesheet: sheet, cell_sprites: context.sprites })
    }

    /// Packs the sprites into one sheet and adds the tileset that names it.
    pub fn create_cell_spritesheet(&self, context: &SpriteSetContext, map: &mut TiledMap) -> (r: RgbaImage)
        requires
            context.wf(),
        ensures
            final(map).width == old(map).width,
            final(map).height == old(map).height,
            final(map).tilewidth == old(map).tilewidth,
            final(map).tileheight == old(map).tileheight,
            final(map).orientation == old(map).orientation,
            final(map).nextlayerid == old(map).nextlayerid,
            final(map).tilesets@ == old(map).tilesets@.push(final(map).tilesets@.last()),
            final(map).tilesets@.last().name@ == "cells"@,
            final(map).tilesets@.last().image matches Some(i) && i@ == "gfx/cells.png"@,
            final(map).tilesets@.last().imagewidth == Some(r.width as i32),
            final(map).tilesets@.last().imageheight == Some(r.width as i32),
            final(map).tilesets@.last().columns == r.width / 8,
            final(map).tilesets@.last().tilecount == (r.width / 8) * (r.width / 8),
            final(map).tilesets@.last().firstgid == 1,
            r.height == r.width,
            is_pow2(r.width as int),
            exists|g: int|
                is_grid_size(g, context.sprites@.len() as int) && r.width == sheet_side(
                    g,
                    context.sprites@.len() as int,
                ) && r.pixels@ == sheet_pixels(context.view_sprites(), g, r.width as int),
    {
        let sheet = create_spritesheet(&context.sprites);
        proof {
            let g = choose|g: int|
                {
                    &&& is_grid_size(g, context.sprites@.len() as int)
                    &&& sheet.width == sheet_side(g, context.sprites@.len() as int)
                    &&& sheet.height == sheet.width
                    &&& is_pow2(sheet.width as int)
                    &&& sheet.pixels@ == sheet_pixels(image_pixels(context.sprites@), g, sheet.width as int)
                };
            lemma_grid_bound(g, context.sprites@.len() as int);
        }
        let tileset = Tileset::new(
            String::from_str("cells"),
            String::from_str("gfx/cells.png"),
            sheet.width as u32,
            sheet.height as u32,
            CELL_WIDTH as u32,
            CELL_HEIGHT as u32,
            1,
        );
        map.tilesets.push(tileset);
        sheet
    }
}

impl Converter<JswRawGame, Result<MapWithSpritesheet, Error>> for RawToTiledConverter {
    fn convert(&self, input: &JswRawGame) -> Result<MapWithSpritesheet, Error> {
        RawToTiledConverter::convert(self, input)
    }
}

/// The background and foreground tile ids of a room group.
pub open spec fn layer_tiles(l: Layer) -> (Seq<u32>, Seq<u32>) {
    (l.layers->Some_0@[0].data->Some_0@, l.layers->Some_0@[2].data->Some_0@)
}

/// Converting the same game twice gives the same outcome: on success the same tile ids
/// in every room group, the same sprites and a byte-identical sprite sheet.
pub proof fn lemma_conversion_deterministic(
    rooms: Seq<JswRawRoom>,
    r1: Result<MapWithSpritesheet, Error>,
    r2: Result<MapWithSpritesheet, Error>,
)
    requires
        conversion_ok(rooms, r1),
        conversion_ok(rooms, r2),
    ensures
        r1 is Ok <==> r2 is Ok,
        r1 matches Ok(o1) ==> r2 matches Ok(o2) && {
            &&& image_pixels(o1.cell_sprites@) == image_pixels(o2.cell_sprites@)
            &&& o1.cell_spritesheet.width == o2.cell_spritesheet.width
            &&& o1.cell_spritesheet.pixels@ == o2.cell_spritesheet.pixels@
            &&& rgba_bytes(o1.cell_spritesheet.pixels@) == rgba_bytes(o2.cell_spritesheet.pixels@)
            &&& o1.map.layers@.len() == o2.map.layers@.len()
            &&& forall|i: int|
                0 <= i < o1.map.layers@.len() ==> layer_tiles(#[trigger] o1.map.layers@[i])
                    == layer_tiles(o2.map.layers@[i])
        },
{
    if all_rooms_have_cells(rooms) {
        let o1 = r1->Ok_0;
        let o2 = r2->Ok_0;
        let sprites = rooms_ids(rooms).0;
        let n = sprites.len() as int;
        let g1 = choose|g: int|
            is_grid_size(g, n) && o1.cell_spritesheet.width as int == sheet_side(g, n)
                && o1.cell_spritesheet.pixels@ == sheet_pixels(sprites, g, o1.cell_spritesheet.width as int);
        let g2 = choose|g: int|
            is_grid_size(g, n) && o2.cell_spritesheet.width as int == sheet_side(g, n)
                && o2.cell_spritesheet.pixels@ == sheet_pixels(sprites, g, o2.cell_spritesheet.width as int);
        lemma_grid_unique(g1, g2, n);
        assert forall|i: int| 0 <= i < o1.map.layers@.len() implies layer_tiles(
            #[trigger] o1.map.layers@[i],
        ) == layer_tiles(o2.map.layers@[i]) by {
            let r = rooms.len() - 1 - i;
            assert(rooms.len() - 1 - r == i);
            assert(room_layer_ok(o1.map.layers@[rooms.len() - 1 - r], rooms[r], (1 + 4 * r) as u32, rooms_ids(rooms).1[r]));
            assert(room_layer_ok(o2.map.layers@[rooms.len() - 1 - r], rooms[r], (1 + 4 * r) as u32, rooms_ids(rooms).1[r]));
        }
    }
}

/// Whether two pixel runs are equal.
pub fn same_pixels(a: &Vec<Rgba>, b: &Vec<Rgba>) -> (r: bool)
    ensures
        r == (a@ == b@),
{
    if a.len() != b.len() {
        return false;
    }
    let mut i: usize = 0;
    while i < a.len()
        invariant
            a@.len() == b@.len(),
            i <= a@.len(),
            forall|j: int| 0 <= j < i ==> a@[j] == b@[j],
        decreases a@.len() - i,
    {
        if a[i] != b[i] {
            return false;
        }
        i = i + 1;
    }
    assert(a@ =~= b@);
    true
}

} // verus!
