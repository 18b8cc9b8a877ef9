use vstd::prelude::*;
use vstd::string::StringExecFns;

verus! {

pub const TILED_VERSION: &'static str = "1.11.2";
pub const MAP_VERSION: &'static str = "1.10";

/// Kind of a map layer.
#[derive(Clone, Copy, Debug, PartialEq, Eq, Structural)]
pub enum LayerType {
    TileLayer,
    ObjectGroup,
    ImageLayer,
    Group,
}

/// Compression of tile layer data.
#[derive(Clone, Copy, Debug, PartialEq, Eq, Structural)]
pub enum Compression {
    Zlib,
    Gzip,
    Zstd,
}

/// Drawing order of an object group.
#[derive(Clone, Copy, Debug, PartialEq, Eq, Structural)]
pub enum DrawOrder {
    TopDown,
    Index,
}

/// Encoding of tile layer data.
#[derive(Clone, Copy, Debug, PartialEq, Eq, Structural)]
pub enum LayerEncoding {
    Csv,
    Base64,
}

/// Type tag of a map.
#[derive(Clone, Copy, Debug, PartialEq, Eq, Structural)]
pub enum MapType {
    TileMap,
}

/// Projection of a map.
#[derive(Clone, Copy, Debug, PartialEq, Eq, Structural)]
pub enum MapOrientation {
    Orthogonal,
    Isometric,
    Staggered,
    Hexagonal,
}

/// Order in which tiles are drawn.
#[derive(Clone, Copy, Debug, PartialEq, Eq, Structural)]
pub enum RenderOrder {
    RightDown,
    RightUp,
    LeftDown,
    LeftUp,
}

/// Stagger axis of staggered and hexagonal maps.
#[derive(Clone, Copy, Debug, PartialEq, Eq, Structural)]
pub enum Axis {
    X,
    Y,
    Z,
}

/// Stagger index of staggered and hexagonal maps.
#[derive(Clone, Copy, Debug, PartialEq, Eq, Structural)]
pub enum Parity {
    Odd,
    Even,
}

/// Horizontal alignment of a text object.
#[derive(Clone, Copy, Debug, PartialEq, Eq, Structural)]
pub enum HorizontalAlignment {
    Center,
    Right,
    Justify,
    Left,
}

/// Vertical alignment of a text object.
#[derive(Clone, Copy, Debug, PartialEq, Eq, Structural)]
pub enum VerticalAlignment {
    Center,
    Bottom,
    Top,
}

/// How tile images fill their area.
#[derive(Clone, Copy, Debug, PartialEq, Eq, Structural)]
pub enum FillMode {
    Stretch,
    PreserveAspectFit,
}

/// Alignment of tile objects.
#[derive(Clone, Copy, Debug, PartialEq, Eq, Structural)]
pub enum ObjectAlignment {
    Unspecified,
    TopLeft,
    Top,
    TopRight,
    Left,
    Center,
    Right,
    BottomLeft,
    Bottom,
    BottomRight,
}

/// Size at which tiles are rendered.
#[derive(Clone, Copy, Debug, PartialEq, Eq, Structural)]
pub enum TileRenderSize {
    Tile,
    Grid,
}

/// Type tag of a tileset.
#[derive(Clone, Copy, Debug, PartialEq, Eq, Structural)]
pub enum TilesetType {
    Tileset,
}

/// Projection of a tileset grid.
#[derive(Clone, Copy, Debug, PartialEq, Eq, Structural)]
pub enum GridOrientation {
    Orthogonal,
    Isometric,
}

/// Kind of a Wang set.
#[derive(Clone, Copy, Debug, PartialEq, Eq, Structural)]
pub enum WangSetType {
    Corner,
    Edge,
    Mixed,
}

/// A point in pixels.
#[derive(Clone, Copy, Debug, PartialEq, Eq, Structural)]
pub struct Point {
    pub x: i32,
    pub y: i32,
}

/// A tileset's grid.
#[derive(Clone, Copy, Debug, PartialEq, Eq, Structural)]
pub struct Grid {
    pub height: i32,
    pub orientation: GridOrientation,
    pub width: i32,
}

/// Drawing offset of a tileset's tiles.
#[derive(Clone, Copy, Debug, PartialEq, Eq, Structural)]
pub struct TileOffset {
    pub x: i32,
    pub y: i32,
}

/// Transformations allowed on a tileset's tiles.
#[derive(Clone, Copy, Debug, PartialEq, Eq, Structural)]
pub struct Transformations {
    pub hflip: bool,
    pub vflip: bool,
    pub rotate: bool,
    pub preferuntransformed: bool,
}

/// One frame of a tile animation.
#[derive(Clone, Copy, Debug, PartialEq, Eq, Structural)]
pub struct Frame {
    pub tileid: i32,
    pub duration: i32,
}

/// A tile's Wang colours.
#[derive(Clone, Copy, Debug)]
pub struct WangTile {
    pub tileid: i32,
    pub wangid: [u8; 8],
}

/// A chunk of an infinite tile layer.
#[derive(Debug)]
pub struct Chunk {
    pub data: Vec<u32>,
    pub height: u32,
    pub width: u32,
    pub x: i32,
    pub y: i32,
}

/// A text object's text and style.
#[derive(Debug)]
pub struct Text {
    pub bold: bool,
    pub color: String,
    pub fontfamily: String,
    pub halign: HorizontalAlignment,
    pub italic: bool,
    pub kerning: bool,
    pub pixelsize: i32,
    pub strikeout: bool,
    pub text: String,
    pub underline: bool,
    pub valign: VerticalAlignment,
    pub wrap: bool,
}

/// A layer of the map: the fields that this library writes. Opacity and parallax are
/// always 1 and offsets 0 in what it writes.
#[derive(Debug)]
pub struct Layer {
    pub class: Option<String>,
    pub compression: Option<Compression>,
    pub data: Option<Vec<u32>>,
    pub encoding: Option<LayerEncoding>,
    pub height: Option<u32>,
    pub id: u32,
    pub layers: Option<Vec<Layer>>,
    pub locked: bool,
    pub name: String,
    pub typ: LayerType,
    pub visible: bool,
    pub width: Option<u32>,
    pub x: i32,
    pub y: i32,
}

/// A tileset made of one image cut into equal tiles.
#[derive(Debug)]
pub struct Tileset {
    pub columns: i32,
    pub firstgid: i32,
    pub image: Option<String>,
    pub imageheight: Option<i32>,
    pub imagewidth: Option<i32>,
    pub margin: i32,
    pub name: String,
    pub spacing: i32,
    pub tilecount: i32,
    pub tileheight: i32,
    pub tilewidth: i32,
    pub typ: TilesetType,
}

/// A tile map: the fields that this library writes.
#[derive(Debug)]
pub struct TiledMap {
    pub class: Option<String>,
    pub compressionlevel: i32,
    pub height: u32,
    pub infinite: bool,
    pub layers: Vec<Layer>,
    pub nextlayerid: u32,
    pub nextobjectid: u32,
    pub orientation: MapOrientation,
    pub renderorder: RenderOrder,
    pub tiledversion: String,
    pub tileheight: u32,
    pub tilesets: Vec<Tileset>,
    pub tilewidth: u32,
    pub typ: MapType,
    pub version: String,
    pub width: u32,
}

/// Tile layer data seen as rows of `cols` tiles.
pub struct TileMatrix<T> {
    data: Vec<T>,
    cols: usize,
}

impl<T> TileMatrix<T> {
    /// The tiles, row-major.
    pub closed spec fn view_data(&self) -> Seq<T> {
        self.data@
    }

    /// Tiles per row.
    pub closed spec fn view_cols(&self) -> nat {
        self.cols as nat
    }

    /// Views `data` as rows of `cols` tiles.
    pub fn wrap_vec(data: Vec<T>, cols: usize) -> (r: Self)
        ensures
            r.view_data() == data@,
            r.view_cols() == cols,
    {
        TileMatrix { data, cols }
    }

    /// The tile at column `col` of row `row`, if the data holds that position.
    pub fn get(&self, col: usize, row: usize) -> (r: Option<&T>)
        ensures
            ({
                let index = self.view_cols() * row + col;
                &&& index < self.view_data().len() ==> r == Some(&self.view_data()[index as int])
                &&& index >= self.view_data().len() ==> r is None
            }),
    {
        let len = self.data.len();
        let index = match self.cols.checked_mul(row) {
            Some(m) => match m.checked_add(col) {
                Some(i) => i,
                None => {
                    return None;
                },
            },
            None => {
                return None;
            },
        };
        if index < len {
            Some(&self.data[index])
        } else {
            None
        }
    }

    /// Sets the tile at column `col` of row `row`, which the data must hold.
    pub fn set(&mut self, col: usize, row: usize, value: T)
        requires
            old(self).view_cols() * row + col < old(self).view_data().len(),
        ensures
            final(self).view_cols() == old(self).view_cols(),
            final(self).view_data() == old(self).view_data().update(
                (old(self).view_cols() * row + col) as int,
                value,
            ),
    {
        let len = self.data.len();
        assert(self.cols * row <= self.cols * row + col < len) by (nonlinear_arith)
            requires
                self.cols * row + col < len,
        ;
        let index = self.cols * row + col;
        self.data.set(index, value);
    }

    /// The tiles, row-major.
    pub fn into_vec(self) -> (r: Vec<T>)
        ensures
            r@ == self.view_data(),
    {
        self.data
    }
}

impl TiledMap {
    /// An empty map; layer and object ids start at 1.
    pub fn new(
        class: Option<String>,
        orientation: MapOrientation,
        width: u32,
        height: u32,
        tilewidth: u32,
        tileheight: u32,
    ) -> (r: Self)
        ensures
            r.class == class,
            r.orientation == orientation,
            r.width == width,
            r.height == height,
            r.tilewidth == tilewidth,
            r.tileheight == tileheight,
            r.compressionlevel == -1,
            r.nextlayerid == 1,
            r.nextobjectid == 1,
            r.layers@.len() == 0,
            r.tilesets@.len() == 0,
            !r.infinite,
            r.tiledversion@ == TILED_VERSION@,
            r.version@ == MAP_VERSION@,
    {
        TiledMap {
            class,
            compressionlevel: -1,
            height,
            infinite: false,
            layers: Vec::new(),
            nextlayerid: 1,
            nextobjectid: 1,
            orientation,
            renderorder: RenderOrder::RightDown,
            tiledversion: String::from_str(TILED_VERSION),
            tileheight,
            tilesets: Vec::new(),
            tilewidth,
            typ: MapType::TileMap,
            version: String::from_str(MAP_VERSION),
            width,
        }
    }

    /// Hands out the next layer id.
    pub fn next_layer_id(&mut self) -> (r: u32)
        requires
            old(self).nextlayerid < u32::MAX,
        ensures
            r == old(self).nextlayerid,
            final(self).nextlayerid == old(self).nextlayerid + 1,
            final(self).nextobjectid == old(self).nextobjectid,
            final(self).width == old(self).width,
            final(self).height == old(self).height,
            final(self).layers == old(self).layers,
            final(self).tilesets == old(self).tilesets,
            final(self).tilewidth == old(self).tilewidth,
            final(self).tileheight == old(self).tileheight,
            final(self).orientation == old(self).orientation,
    {
        let id = self.nextlayerid;
        self.nextlayerid = self.nextlayerid + 1;
        id
    }

    /// Hands out the next object id.
    pub fn next_object_id(&mut self) -> (r: u32)
        requires
            old(self).nextobjectid < u32::MAX,
        ensures
            r == old(self).nextobjectid,
            final(self).nextobjectid == old(self).nextobjectid + 1,
            final(self).nextlayerid == old(self).nextlayerid,
    {
        let id = self.nextobjectid;
        self.nextobjectid = self.nextobjectid + 1;
        id
    }
}

impl Layer {
    /// A visible-by-default layer with the map's next layer id; a tile layer gets the
    /// map's size and all-zero data.
    pub fn new(map: &mut TiledMap, typ: LayerType, name: String) -> (r: Self)
        requires
            old(map).nextlayerid < u32::MAX,
            old(map).width * old(map).height <= usize::MAX,
        ensures
            r.id == old(map).nextlayerid,
            final(map).nextlayerid == old(map).nextlayerid + 1,
            final(map).nextobjectid == old(map).nextobjectid,
            final(map).width == old(map).width,
            final(map).height == old(map).height,
            final(map).layers == old(map).layers,
            final(map).tilesets == old(map).tilesets,
            final(map).tilewidth == old(map).tilewidth,
            final(map).tileheight == old(map).tileheight,
            final(map).orientation == old(map).orientation,
            r.typ == typ,
            r.name == name,
            r.class is None,
            r.layers is None,
            !r.visible,
            r.encoding == Some(LayerEncoding::Csv),
            typ == LayerType::TileLayer ==> (r.data matches Some(d) && d@ == Seq::new(
                (old(map).width * old(map).height) as nat,
                |k: int| 0u32,
            )),
            typ == LayerType::TileLayer ==> r.width == Some(old(map).width) && r.height == Some(
                old(map).height,
            ),
            typ != LayerType::TileLayer ==> r.data is None && r.width is None && r.height is None,
    {
        let id = map.next_layer_id();
        let mut data: Option<Vec<u32>> = None;
        let mut width: Option<u32> = None;
        let mut height: Option<u32> = None;
        match typ {
            LayerType::TileLayer => {
                let n = map.width as usize * map.height as usize;
                let v: Vec<u32> = vec![0u32; n];
                assert(v@ =~= Seq::new((map.width * map.height) as nat, |k: int| 0u32));
                data = Some(v);
                width = Some(map.width);
                height = Some(map.height);
            },
            _ => {},
        }
        Layer {
            class: None,
            compression: None,
            data,
            encoding: Some(LayerEncoding::Csv),
            height,
            id,
            layers: None,
            locked: false,
            name,
            typ,
            visible: false,
            width,
            x: 0,
            y: 0,
        }
    }
}

impl Tileset {
    /// A tileset that cuts an image into tiles of the given size, numbered from
    /// `firstgid`.
    pub fn new(
        name: String,
        image: String,
        imagewidth: u32,
        imageheight: u32,
        tilewidth: u32,
        tileheight: u32,
        firstgid: u32,
    ) -> (r: Self)
        requires
            tilewidth > 0,
            tileheight > 0,
            imagewidth <= 0x8000,
            imageheight <= 0x8000,
            firstgid <= i32::MAX,
        ensures
            r.name == name,
            r.image == Some(image),
            r.imagewidth == Some(imagewidth as i32),
            r.imageheight == Some(imageheight as i32),
            r.tilewidth == tilewidth as i32,
            r.tileheight == tileheight as i32,
            r.firstgid == firstgid as i32,
            r.columns == imagewidth / tilewidth,
            r.tilecount == (imagewidth / tilewidth) * (imageheight / tileheight),
            r.margin == 0,
            r.spacing == 0,
    {
        let columns = imagewidth / tilewidth;
        let rows = imageheight / tileheight;
        assert(columns * rows <= 0x8000 * 0x8000) by (nonlinear_arith)
            requires
                columns <= 0x8000,
                rows <= 0x8000,
        ;
        Tileset {
            columns: columns as i32,
            firstgid: firstgid as i32,
            image: Some(image),
            imageheight: Some(imageheight as i32),
            imagewidth: Some(imagewidth as i32),
            margin: 0,
            name,
            spacing: 0,
            tilecount: (columns * rows) as i32,
            tileheight: tileheight as i32,
            tilewidth: tilewidth as i32,
            typ: TilesetType::Tileset,
        }
    }
}

} // verus!
