use vstd::prelude::*;

use crate::colours::{transparent, transparent_spec, Rgba};
use crate::error::Error;

verus! {

pub const CELL_WIDTH: usize = 8;
pub const CELL_HEIGHT: usize = 8;
/// Pixels of one cell sprite.
pub const CELL_PIXELS: usize = 64;
/// Most sprites that one sheet takes.
pub const MAX_SHEET_SPRITES: usize = 0x100000;

/// An image, row-major, one `Rgba` per pixel.
#[derive(Debug)]
pub struct RgbaImage {
    pub width: u16,
    pub height: u16,
    pub pixels: Vec<Rgba>,
}

/// The bytes of a run of pixels: red, green, blue and alpha of each in turn.
pub open spec fn rgba_bytes(px: Seq<Rgba>) -> Seq<u8>
    decreases px.len(),
{
    if px.len() == 0 {
        seq![]
    } else {
        let p = px.last();
        rgba_bytes(px.drop_last()) + seq![p.r, p.g, p.b, p.a]
    }
}

impl RgbaImage {
    /// The pixels as RGBA bytes.
    pub fn bytes(&self) -> (r: Vec<u8>)
        ensures
            r@ == rgba_bytes(self.pixels@),
    {
        let mut out: Vec<u8> = Vec::new();
        let mut i: usize = 0;
        while i < self.pixels.len()
            invariant
                i <= self.pixels@.len(),
                out@ == rgba_bytes(self.pixels@.take(i as int)),
            decreases self.pixels@.len() - i,
        {
            let p = self.pixels[i];
            out.push(p.r);
            out.push(p.g);
            out.push(p.b);
            out.push(p.a);
            assert(self.pixels@.take(i + 1).drop_last() =~= self.pixels@.take(i as int));
            assert(out@ =~= rgba_bytes(self.pixels@.take(i + 1)));
            i = i + 1;
        }
        assert(self.pixels@.take(self.pixels@.len() as int) =~= self.pixels@);
        out
    }
}

/// Pixel `p` of an 8-pixel-wide sprite: row `p / 8` is bitmap byte `p / 8`, whose bit
/// `7 - p % 8` picks the foreground; rows past the bitmap stay transparent.
pub open spec fn sprite_pixel(data: Seq<u8>, fg: Rgba, bg: Rgba, p: int) -> Rgba {
    let row = p / 8;
    let col = p % 8;
    if row < data.len() {
        if (data[row] >> ((7 - col) as u8)) & 1 == 1 {
            fg
        } else {
            bg
        }
    } else {
        transparent_spec()
    }
}

/// The 8×8 sprite that a bitmap gives in the two colours.
pub open spec fn sprite_pixels(data: Seq<u8>, fg: Rgba, bg: Rgba) -> Seq<Rgba> {
    Seq::new(CELL_PIXELS as nat, |p: int| sprite_pixel(data, fg, bg, p))
}

/// Renders an 8×8 one-bit bitmap, one byte per row, in a foreground and a background
/// colour. A bitmap of more than eight rows would write past the sprite and is refused.
pub fn create_image_from_sprite_data(data: &[u8], fg: Rgba, bg: Rgba) -> (r: Result<RgbaImage, Error>)
    ensures
        data@.len() > CELL_HEIGHT ==> (r matches Err(e) && e == Error::IndexOutOfBounds {
            index: CELL_PIXELS,
            length: CELL_PIXELS,
        }),
        data@.len() <= CELL_HEIGHT ==> (r matches Ok(img) && img.width == CELL_WIDTH
            && img.height == CELL_HEIGHT && img.pixels@ == sprite_pixels(data@, fg, bg)),
{
    if data.len() > CELL_HEIGHT {
        return Err(Error::IndexOutOfBounds { index: CELL_PIXELS, length: CELL_PIXELS });
    }
    let mut pixels: Vec<Rgba> = Vec::new();
    let mut p: usize = 0;
    while p < CELL_PIXELS
        invariant
            data@.len() <= CELL_HEIGHT,
            p <= CELL_PIXELS,
            pixels@ == sprite_pixels(data@, fg, bg).take(p as int),
        decreases CELL_PIXELS - p,
    {
        let row = p / 8;
        let col = p % 8;
        let c = if row < data.len() {
            if (data[row] >> (7 - col) as u8) & 1 == 1 {
                fg
            } else {
                bg
            }
        } else {
            transparent()
        };
        pixels.push(c);
        assert(pixels@ =~= sprite_pixels(data@, fg, bg).take(p + 1));
        p = p + 1;
    }
    assert(pixels@ =~= sprite_pixels(data@, fg, bg));
    Ok(RgbaImage { width: CELL_WIDTH as u16, height: CELL_HEIGHT as u16, pixels })
}

/// `n` is a power of two.
pub open spec fn is_pow2(n: int) -> bool
    decreases n,
{
    if n <= 0 {
        false
    } else if n == 1 {
        true
    } else {
        n % 2 == 0 && is_pow2(n / 2)
    }
}

/// `g` is the sprite grid for `count` sprites: the smallest power of two whose square
/// holds them.
pub open spec fn is_grid_size(g: int, count: int) -> bool {
    &&& is_pow2(g)
    &&& g * g >= count
    &&& (g == 1 || (g / 2) * (g / 2) < count)
}

/// Pixel `p` of a sheet of side `side` with sprites of 8×8 on a grid of `g` columns:
/// sprite `i` sits at column `i % g`, row `i / g`; the rest is transparent.
pub open spec fn sheet_pixel(sprites: Seq<Seq<Rgba>>, g: int, side: int, p: int) -> Rgba {
    let y = p / side;
    let x = p % side;
    let i = (y / 8) * g + x / 8;
    if i < sprites.len() {
        sprites[i][(y % 8) * 8 + x % 8]
    } else {
        transparent_spec()
    }
}

/// The sheet of side `side` that holds the sprites.
pub open spec fn sheet_pixels(sprites: Seq<Seq<Rgba>>, g: int, side: int) -> Seq<Rgba> {
    Seq::new((side * side) as nat, |p: int| sheet_pixel(sprites, g, side, p))
}

/// The pixels of each image.
pub open spec fn image_pixels(images: Seq<RgbaImage>) -> Seq<Seq<Rgba>> {
    images.map_values(|im: RgbaImage| im.pixels@)
}

proof fn lemma_double_pow2(g: int)
    requires
        is_pow2(g),
    ensures
        is_pow2(2 * g),
{
    assert((2 * g) / 2 == g);
}

/// Side of the sheet for `count` sprites on a grid of `g` columns.
pub open spec fn sheet_side(g: int, count: int) -> int {
    if count == 0 {
        1
    } else {
        g * 8
    }
}

/// Packs 8×8 sprites into one square sheet whose side is a power of two: the grid is
/// the smallest power of two whose square holds them, and sprite `i` goes to grid column
/// `i % grid`, row `i / grid`. With no sprites the sheet is a single transparent pixel.
pub fn create_spritesheet(images: &Vec<RgbaImage>) -> (r: RgbaImage)
    requires
        images@.len() <= MAX_SHEET_SPRITES,
        forall|i: int| 0 <= i < images@.len() ==> (#[trigger] images@[i]).pixels@.len() == CELL_PIXELS,
    ensures
        exists|g: int|
            {
                &&& is_grid_size(g, images@.len() as int)
                &&& r.width == sheet_side(g, images@.len() as int)
                &&& r.height == r.width
                &&& is_pow2(r.width as int)
                &&& r.pixels@ == sheet_pixels(image_pixels(images@), g, r.width as int)
            },
{
    let count = images.len();
    let mut grid: usize = 1;
    while grid * grid < count
        invariant
            count == images@.len(),
            count <= MAX_SHEET_SPRITES,
            1 <= grid <= 2048,
            grid * grid <= 0x400000,
            is_pow2(grid as int),
            grid == 1 || (grid / 2) * (grid / 2) < count,
        decreases 2048 - grid,
    {
        assert(grid * 2 <= 2048 && (grid * 2) * (grid * 2) <= 0x400000) by (nonlinear_arith)
            requires
                grid * grid < count,
                count <= 0x100000,
                1 <= grid,
        ;
        proof {
            lemma_double_pow2(grid as int);
        }
        grid = grid * 2;
        assert((grid / 2) * (grid / 2) < count);
    }
    let side: usize = if count == 0 {
        1
    } else {
        grid * 8
    };
    proof {
        if count > 0 {
            lemma_double_pow2(grid as int);
            lemma_double_pow2(2 * grid as int);
            lemma_double_pow2(4 * grid as int);
            assert(2 * (2 * (2 * grid)) == grid * 8);
        }
    }
    assert(side * side <= 16384 * 16384) by (nonlinear_arith)
        requires
            side <= 16384,
    ;
    let total = side * side;
    let ghost sprites = image_pixels(images@);
    let mut pixels: Vec<Rgba> = Vec::new();
    let mut p: usize = 0;
    while p < total
        invariant
            count == images@.len(),
            sprites == image_pixels(images@),
            forall|i: int| 0 <= i < images@.len() ==> (#[trigger] images@[i]).pixels@.len() == CELL_PIXELS,
            1 <= grid <= 2048,
            count == 0 ==> side == 1,
            count > 0 ==> side == grid * 8,
            total == side * side,
            p <= total,
            pixels@ == sheet_pixels(sprites, grid as int, side as int).take(p as int),
        decreases total - p,
    {
        let y = p / side;
        let x = p % side;
        assert(y / 8 * grid + x / 8 <= 2048 * 2048) by (nonlinear_arith)
            requires
                1 <= grid <= 2048,
                side >= 1,
                side <= grid * 8,
                y == p / side,
                x == p % side,
                p < side * side,
        ;
        let i = (y / 8) * grid + x / 8;
        let c = if i < count {
            let k = (y % 8) * 8 + x % 8;
            assert(k < 64) by (nonlinear_arith)
                requires
                    k == (y % 8) * 8 + x % 8,
            ;
            assert(sprites[i as int] == images@[i as int].pixels@);
            images[i].pixels[k]
        } else {
            transparent()
        };
        pixels.push(c);
        assert(pixels@ =~= sheet_pixels(sprites, grid as int, side as int).take(p + 1));
        p = p + 1;
    }
    assert(pixels@ =~= sheet_pixels(sprites, grid as int, side as int));
    let r = RgbaImage { width: side as u16, height: side as u16, pixels };
    assert(is_grid_size(grid as int, count as int));
    r
}

/// Powers of two below one another are at least a factor of two apart.
pub proof fn lemma_pow2_gap(a: int, b: int)
    requires
        is_pow2(a),
        is_pow2(b),
        a < b,
    ensures
        2 * a <= b,
    decreases a,
{
    assert(b != 1);
    if a != 1 {
        lemma_pow2_gap(a / 2, b / 2);
    }
}

/// The sprite grid for a count is unique.
pub proof fn lemma_grid_unique(g1: int, g2: int, count: int)
    requires
        is_grid_size(g1, count),
        is_grid_size(g2, count),
    ensures
        g1 == g2,
{
    if g1 < g2 {
        lemma_pow2_gap(g1, g2);
        assert(g1 <= g2 / 2);
        assert(g1 * g1 <= (g2 / 2) * (g2 / 2)) by (nonlinear_arith)
            requires
                1 <= g1 <= g2 / 2,
        ;
    } else if g2 < g1 {
        lemma_pow2_gap(g2, g1);
        assert(g2 <= g1 / 2);
        assert(g2 * g2 <= (g1 / 2) * (g1 / 2)) by (nonlinear_arith)
            requires
                1 <= g2 <= g1 / 2,
        ;
    }
}

/// The sprite grid of a sheet that fits is at most 2048 wide.
pub proof fn lemma_grid_bound(g: int, count: int)
    requires
        is_grid_size(g, count),
        count <= MAX_SHEET_SPRITES,
    ensures
        1 <= g <= 2048,
{
    lemma_pow2_pos(g);
    if g > 2048 {
        assert((g / 2) * (g / 2) >= 1024 * 1024) by (nonlinear_arith)
            requires
                g / 2 >= 1024,
        ;
    }
}

pub proof fn lemma_pow2_pos(g: int)
    requires
        is_pow2(g),
    ensures
        g >= 1,
{
}

} // verus!
