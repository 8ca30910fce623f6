//! Style files: the tiles (64 x 64 images of palette indices, 16 to a 256 x 256
//! page), the physical palettes (64 to a page), the palette index of each tile
//! and the palette bases.
use crate::bytes::{le_u16, le_u16s, le_u32, read_u16_le, read_u16s_le, read_u32_le};
use crate::chunk::{
    after_skip, chunk_body, chunk_size, has_tag, header_of, read_chunk_head, read_header, tag_is,
    ChunkBuilderError, FileHeader, ParseError, StreamEnd, CHUNK_HEAD_SIZE, HEADER_SIZE,
};
use vstd::arithmetic::div_mod::lemma_fundamental_div_mod_converse;
use vstd::prelude::*;

verus! {

/// Width and height in pixels of a page.
pub const PAGE_SIZE: usize = 256;

/// Size in bytes of a page.
pub const PAGE_BYTES: usize = 65536;

/// Width and height in pixels of a tile.
pub const IMAGE_SIZE: usize = 64;

/// Number of tiles on a page, four rows of four.
pub const TILES_PER_PAGE: usize = 16;

/// A 64 x 64 image of palette indices, pixel (x, y) at `y * 64 + x`.
#[derive(Debug)]
pub struct Tile(pub Vec<u8>);

/// Where on a page pixel (x, y) of tile `id` lies: tile `id` covers row `id / 4`
/// and column `id % 4` of the page's 4 x 4 grid of tiles.
pub open spec fn tile_pixel_index(id: int, x: int, y: int) -> int {
    (y + 64 * (id / 4)) * 256 + x + 64 * (id % 4)
}

/// The pixels of tile `id` of `page`, row by row.
pub open spec fn tile_pixels(page: Seq<u8>, id: int) -> Seq<u8> {
    Seq::new(4096, |i: int| page[tile_pixel_index(id, i % 64, i / 64)])
}

proof fn lemma_row_col(x: int, y: int)
    requires
        0 <= x < 64,
        0 <= y,
    ensures
        (y * 64 + x) % 64 == x,
        (y * 64 + x) / 64 == y,
{
    lemma_fundamental_div_mod_converse(y * 64 + x, 64, y, x);
}

impl Tile {
    /// Cuts tile `id` out of a page.
    pub fn from_file(id: usize, page: &[u8]) -> (r: Tile)
        requires
            id < 16,
            page@.len() == 65536,
        ensures
            r.0@ == tile_pixels(page@, id as int),
    {
        let y_start = (id / 4) * IMAGE_SIZE;
        let x_start = (id % 4) * IMAGE_SIZE;
        let mut tile: Vec<u8> = Vec::with_capacity(IMAGE_SIZE * IMAGE_SIZE);
        let mut y: usize = 0;
        while y < IMAGE_SIZE
            invariant
                y <= 64,
                id < 16,
                page@.len() == 65536,
                y_start == (id / 4) * 64,
                x_start == (id % 4) * 64,
                tile@.len() == y * 64,
                forall|i: int| 0 <= i < tile@.len() ==> #[trigger] tile@[i] == tile_pixels(page@, id as int)[i],
            decreases 64 - y,
        {
            let mut x: usize = 0;
            while x < IMAGE_SIZE
                invariant
                    y < 64,
                    x <= 64,
                    id < 16,
                    page@.len() == 65536,
                    y_start == (id / 4) * 64,
                    x_start == (id % 4) * 64,
                    tile@.len() == y * 64 + x,
                    forall|i: int| 0 <= i < tile@.len() ==> #[trigger] tile@[i] == tile_pixels(page@, id as int)[i],
                decreases 64 - x,
            {
                proof {
                    lemma_row_col(x as int, y as int);
                }
                tile.push(page[(y_start + y) * PAGE_SIZE + x_start + x]);
                x += 1;
            }
            y += 1;
        }
        assert(tile@ =~= tile_pixels(page@, id as int));
        Tile(tile)
    }
}


/// The images of tiles, in order.
pub open spec fn tile_views(tiles: Seq<Tile>) -> Seq<Seq<u8>> {
    Seq::new(tiles.len(), |i: int| tiles[i].0@)
}

proof fn lemma_tile_views_push(tiles: Seq<Tile>, t: Tile)
    ensures
        tile_views(tiles.push(t)) == tile_views(tiles).push(t.0@),
{
    assert(tile_views(tiles.push(t)) =~= tile_views(tiles).push(t.0@));
}

/// Page `p` of the pages stored one after another in `b`.
pub open spec fn page_of(b: Seq<u8>, p: int) -> Seq<u8> {
    b.subrange(65536 * p, 65536 * p + 65536)
}

/// The 16 tiles of `page`, in id order.
pub open spec fn page_tiles(page: Seq<u8>) -> Seq<Seq<u8>> {
    Seq::new(16, |id: int| tile_pixels(page, id))
}

/// The tiles of the first `pages` pages of `b`: page by page, and in id order
/// within a page.
pub open spec fn tiles_of(b: Seq<u8>, pages: int) -> Seq<Seq<u8>> {
    Seq::new((16 * pages) as nat, |k: int| tile_pixels(page_of(b, k / 16), k % 16))
}

/// The tiles that a `TILE` payload `b` of declared size `size` holds, and the
/// bytes they take: as many whole pages as the size covers. `None` where `b`
/// is shorter than those pages.
pub open spec fn tiles_chunk(b: Seq<u8>, size: u32) -> Option<(Seq<Seq<u8>>, int)> {
    let pages = size / 65536;
    if b.len() < 65536 * pages {
        None
    } else {
        Some((tiles_of(b, pages as int), 65536 * pages))
    }
}

/// Pixel (x, y) of tile `id` cut from a page is the page's pixel
/// (x + 64 * (id % 4), y + 64 * (id / 4)); a page holds 16 tiles.
pub proof fn lemma_tile_pixel(page: Seq<u8>, id: int, x: int, y: int)
    requires
        page.len() == 65536,
        0 <= id < 16,
        0 <= x < 64,
        0 <= y < 64,
    ensures
        page_tiles(page).len() == 16,
        page_tiles(page)[id].len() == 4096,
        page_tiles(page)[id][y * 64 + x] == page[(y + 64 * (id / 4)) * 256 + (x + 64 * (id % 4))],
{
    lemma_row_col(x, y);
}

/// Appends the 16 tiles of `page` to `tiles`, in id order.
pub fn load_tiles_from_page(tiles: &mut Vec<Tile>, page: &[u8])
    requires
        page@.len() == 65536,
    ensures
        tile_views(final(tiles)@) == tile_views(old(tiles)@) + page_tiles(page@),
{
    let ghost start = tile_views(tiles@);
    let mut id: usize = 0;
    while id < TILES_PER_PAGE
        invariant
            id <= 16,
            page@.len() == 65536,
            tile_views(tiles@) == start + page_tiles(page@).take(id as int),
        decreases 16 - id,
    {
        let ghost prev = tiles@;
        let tile = Tile::from_file(id, page);
        proof {
            lemma_tile_views_push(prev, tile);
            assert((start + page_tiles(page@).take(id as int)).push(tile.0@) =~= start + page_tiles(
                page@,
            ).take(id + 1));
        }
        tiles.push(tile);
        id += 1;
    }
    assert(page_tiles(page@).take(16) =~= page_tiles(page@));
}

/// Decodes the tiles of a `TILE` payload of declared size `size`; returns them
/// and the number of bytes they take.
pub fn load_tiles(size: u32, body: &[u8]) -> (r: Result<(Vec<Tile>, usize), ParseError>)
    ensures
        match tiles_chunk(body@, size) {
            None => r == Err::<(Vec<Tile>, usize), ParseError>(ParseError::Truncated),
            Some((v, n)) => r matches Ok((t, used)) && tile_views(t@) == v && used == n,
        },
{
    let pages_count = (size / 65536) as usize;
    if (body.len() as u64) < 65536 * (pages_count as u64) {
        return Err(ParseError::Truncated);
    }
    let mut tiles: Vec<Tile> = Vec::new();
    let mut p: usize = 0;
    while p < pages_count
        invariant
            p <= pages_count,
            pages_count == size / 65536,
            65536 * pages_count <= body@.len(),
            tile_views(tiles@) == tiles_of(body@, p as int),
        decreases pages_count - p,
    {
        let page = &body[PAGE_BYTES * p..PAGE_BYTES * p + PAGE_BYTES];
        load_tiles_from_page(&mut tiles, page);
        proof {
            let next = tiles_of(body@, p + 1);
            assert forall|k: int| 16 * p <= k < 16 * p + 16 implies #[trigger] next[k] == page_tiles(
                page@,
            )[k - 16 * p] by {
                lemma_fundamental_div_mod_converse(k, 16, p as int, k - 16 * p);
            }
            assert forall|k: int| 0 <= k < 16 * p implies #[trigger] next[k] == tiles_of(body@, p as int)[k] by {
            }
            assert(tile_views(tiles@) =~= next);
        }
        p += 1;
    }
    Ok((tiles, PAGE_BYTES * pages_count))
}

/// Number of physical palettes on a page, one for each four-byte-wide column.
pub const PALETTES_PER_PAGE: usize = 64;

/// Number of colours in a physical palette.
pub const PALETTE_COLORS: usize = 1024;

/// A table of colours, each four bytes of packed RGBA.
#[derive(Debug)]
pub struct PhysicalPalette {
    pub colors: Vec<u32>,
}

/// Colour `y` of palette `id` of `page`: the little-endian `u32` at column
/// `4 * id` of row `y`, rows counted modulo the page's 256.
pub open spec fn palette_colors(page: Seq<u8>, id: int) -> Seq<u32> {
    Seq::new(1024, |y: int| le_u32(page, (y % 256) * 256 + 4 * id))
}

/// The palettes of the first `pages` pages of `b`: page by page, and in id
/// order within a page.
pub open spec fn palettes_of(b: Seq<u8>, pages: int) -> Seq<Seq<u32>> {
    Seq::new((64 * pages) as nat, |k: int| palette_colors(page_of(b, k / 64), k % 64))
}

/// The palettes that a `PPAL` payload `b` of declared size `size` holds, and
/// the bytes they take, as for tiles.
pub open spec fn palettes_chunk(b: Seq<u8>, size: u32) -> Option<(Seq<Seq<u32>>, int)> {
    let pages = size / 65536;
    if b.len() < 65536 * pages {
        None
    } else {
        Some((palettes_of(b, pages as int), 65536 * pages))
    }
}

/// The colour tables of palettes, in order.
pub open spec fn palette_views(palettes: Seq<PhysicalPalette>) -> Seq<Seq<u32>> {
    Seq::new(palettes.len(), |i: int| palettes[i].colors@)
}

proof fn lemma_palette_views_push(palettes: Seq<PhysicalPalette>, p: PhysicalPalette)
    ensures
        palette_views(palettes.push(p)) == palette_views(palettes).push(p.colors@),
{
    assert(palette_views(palettes.push(p)) =~= palette_views(palettes).push(p.colors@));
}

/// Reads palette `id` of a page: its 1024 colours.
pub fn load_phys_palette_from_page(id: usize, page: &[u8]) -> (r: PhysicalPalette)
    requires
        id < 64,
        page@.len() == 65536,
    ensures
        r.colors@ == palette_colors(page@, id as int),
{
    let x_start = id * 4;
    let mut colors: Vec<u32> = Vec::with_capacity(PALETTE_COLORS);
    let mut y: usize = 0;
    while y < PALETTE_COLORS
        invariant
            y <= 1024,
            id < 64,
            x_start == 4 * id,
            page@.len() == 65536,
            colors@ == palette_colors(page@, id as int).take(y as int),
        decreases 1024 - y,
    {
        let index = (y % PAGE_SIZE) * PAGE_SIZE + x_start;
        colors.push(read_u32_le(page, index));
        y += 1;
        assert(colors@ =~= palette_colors(page@, id as int).take(y as int));
    }
    assert(palette_colors(page@, id as int).take(1024) =~= palette_colors(page@, id as int));
    PhysicalPalette { colors }
}

/// Decodes the palettes of a `PPAL` payload of declared size `size`; returns
/// them and the number of bytes they take.
pub fn load_physical_palettes(size: u32, body: &[u8]) -> (r: Result<(Vec<PhysicalPalette>, usize), ParseError>)
    ensures
        match palettes_chunk(body@, size) {
            None => r == Err::<(Vec<PhysicalPalette>, usize), ParseError>(ParseError::Truncated),
            Some((v, n)) => r matches Ok((t, used)) && palette_views(t@) == v && used == n,
        },
{
    let pages_count = (size / 65536) as usize;
    if (body.len() as u64) < 65536 * (pages_count as u64) {
        return Err(ParseError::Truncated);
    }
    let mut palettes: Vec<PhysicalPalette> = Vec::new();
    let mut p: usize = 0;
    while p < pages_count
        invariant
            p <= pages_count,
            pages_count == size / 65536,
            65536 * pages_count <= body@.len(),
            palette_views(palettes@) == palettes_of(body@, p as int),
        decreases pages_count - p,
    {
        let page = &body[PAGE_BYTES * p..PAGE_BYTES * p + PAGE_BYTES];
        let ghost before = palette_views(palettes@);
        let mut id: usize = 0;
        while id < PALETTES_PER_PAGE
            invariant
                id <= 64,
                page@.len() == 65536,
                palette_views(palettes@) == before + Seq::new(
                    id as nat,
                    |j: int| palette_colors(page@, j),
                ),
            decreases 64 - id,
        {
            let ghost prev = palettes@;
            let palette = load_phys_palette_from_page(id, page);
            proof {
                lemma_palette_views_push(prev, palette);
                assert((before + Seq::new(id as nat, |j: int| palette_colors(page@, j))).push(
                    palette.colors@,
                ) =~= before + Seq::new((id + 1) as nat, |j: int| palette_colors(page@, j)));
            }
            palettes.push(palette);
            id += 1;
        }
        proof {
            let next = palettes_of(body@, p + 1);
            assert forall|k: int| 64 * p <= k < 64 * p + 64 implies #[trigger] next[k]
                == palette_colors(page@, k - 64 * p) by {
                lemma_fundamental_div_mod_converse(k, 64, p as int, k - 64 * p);
            }
            assert(palette_views(palettes@) =~= next);
        }
        p += 1;
    }
    Ok((palettes, PAGE_BYTES * pages_count))
}


/// For each tile id, the physical palette that its pixels index.
#[derive(Debug)]
pub struct PaletteIndex {
    pub physical_index: Vec<u16>,
}

/// The palette index that a `PALX` payload `b` of declared size `size` holds
/// (`size / 2` little-endian `u16`s), and the bytes it takes; `None` where `b`
/// is shorter.
pub open spec fn palette_index_chunk(b: Seq<u8>, size: u32) -> Option<(Seq<u16>, int)> {
    let n = size / 2;
    if b.len() < 2 * n {
        None
    } else {
        Some((le_u16s(b, 0, n as nat), 2 * n))
    }
}

/// Decodes a `PALX` payload of declared size `size`; returns the index and the
/// number of bytes it takes.
pub fn load_palette_index(size: u32, body: &[u8]) -> (r: Result<(PaletteIndex, usize), ParseError>)
    ensures
        match palette_index_chunk(body@, size) {
            None => r == Err::<(PaletteIndex, usize), ParseError>(ParseError::Truncated),
            Some((v, n)) => r matches Ok((t, used)) && t.physical_index@ == v && used == n,
        },
{
    let count = (size / 2) as usize;
    if (body.len() as u64) < 2 * (count as u64) {
        return Err(ParseError::Truncated);
    }
    let physical_index = read_u16s_le(body, 0, count);
    Ok((PaletteIndex { physical_index }, 2 * count))
}

/// The first index of each kind of palette in the palette index.
#[derive(Debug, Clone, Copy, PartialEq, Eq, Structural)]
pub struct PaletteBase {
    pub tile: u16,
    pub sprite: u16,
    pub car_remap: u16,
    pub ped_remap: u16,
    pub code_obj_remap: u16,
    pub map_obj_remap: u16,
    pub user_remap: u16,
    pub font_remap: u16,
}

/// Palette bases that are all zero, for a file that has no `PALB` chunk.
pub open spec fn zero_palette_base() -> PaletteBase {
    PaletteBase {
        tile: 0,
        sprite: 0,
        car_remap: 0,
        ped_remap: 0,
        code_obj_remap: 0,
        map_obj_remap: 0,
        user_remap: 0,
        font_remap: 0,
    }
}

/// Size in bytes of a `PALB` payload: eight `u16`s.
pub const PALETTE_BASE_BYTES: usize = 16;

/// The palette bases that a `PALB` payload `b` holds, eight little-endian `u16`s
/// in field order, and the bytes they take; `None` where `b` is shorter.
pub open spec fn palette_base_chunk(b: Seq<u8>) -> Option<(PaletteBase, int)> {
    if b.len() < 16 {
        None
    } else {
        Some(
            (
                PaletteBase {
                    tile: le_u16(b, 0),
                    sprite: le_u16(b, 2),
                    car_remap: le_u16(b, 4),
                    ped_remap: le_u16(b, 6),
                    code_obj_remap: le_u16(b, 8),
                    map_obj_remap: le_u16(b, 10),
                    user_remap: le_u16(b, 12),
                    font_remap: le_u16(b, 14),
                },
                16,
            ),
        )
    }
}

/// Decodes a `PALB` payload; returns the bases and the number of bytes they take.
pub fn load_palette_base(body: &[u8]) -> (r: Result<(PaletteBase, usize), ParseError>)
    ensures
        match palette_base_chunk(body@) {
            None => r == Err::<(PaletteBase, usize), ParseError>(ParseError::Truncated),
            Some((v, n)) => r == Ok::<(PaletteBase, usize), ParseError>((v, n as usize)),
        },
{
    if body.len() < PALETTE_BASE_BYTES {
        return Err(ParseError::Truncated);
    }
    let base = PaletteBase {
        tile: read_u16_le(body, 0),
        sprite: read_u16_le(body, 2),
        car_remap: read_u16_le(body, 4),
        ped_remap: read_u16_le(body, 6),
        code_obj_remap: read_u16_le(body, 8),
        map_obj_remap: read_u16_le(body, 10),
        user_remap: read_u16_le(body, 12),
        font_remap: read_u16_le(body, 14),
    };
    Ok((base, PALETTE_BASE_BYTES))
}


/// The chunk types of a style file. `Tiles`, `PhysicalPalettes`, `PaletteBase`
/// and `PaletteIndex` are decoded; the others are skipped by their declared size.
#[derive(Debug, Clone, Copy, PartialEq, Eq, Structural)]
pub enum StyleChunkType {
    PaletteIndex,
    PhysicalPalettes,
    PaletteBase,
    Tiles,
    SpriteGraphics,
    SpriteIndex,
    SpriteBases,
    DeltaStore,
    DeltaIndex,
    FontBase,
    CarInfo,
    MapObjectInfo,
    PsxTiles,
    CarRecyclingInfo,
}

/// The chunk type that the tag at the start of `s` names, if any.
pub open spec fn style_chunk_type(s: Seq<u8>) -> Option<StyleChunkType> {
    if has_tag(s, 80, 65, 76, 88) {  // PALX
        Some(StyleChunkType::PaletteIndex)
    } else if has_tag(s, 80, 80, 65, 76) {  // PPAL
        Some(StyleChunkType::PhysicalPalettes)
    } else if has_tag(s, 80, 65, 76, 66) {  // PALB
        Some(StyleChunkType::PaletteBase)
    } else if has_tag(s, 84, 73, 76, 69) {  // TILE
        Some(StyleChunkType::Tiles)
    } else if has_tag(s, 83, 80, 82, 71) {  // SPRG
        Some(StyleChunkType::SpriteGraphics)
    } else if has_tag(s, 83, 80, 82, 88) {  // SPRX
        Some(StyleChunkType::SpriteIndex)
    } else if has_tag(s, 83, 80, 82, 66) {  // SPRB
        Some(StyleChunkType::SpriteBases)
    } else if has_tag(s, 68, 69, 76, 83) {  // DELS
        Some(StyleChunkType::DeltaStore)
    } else if has_tag(s, 68, 69, 76, 88) {  // DELX
        Some(StyleChunkType::DeltaIndex)
    } else if has_tag(s, 70, 79, 78, 66) {  // FONB
        Some(StyleChunkType::FontBase)
    } else if has_tag(s, 67, 65, 82, 73) {  // CARI
        Some(StyleChunkType::CarInfo)
    } else if has_tag(s, 79, 66, 74, 73) {  // OBJI
        Some(StyleChunkType::MapObjectInfo)
    } else if has_tag(s, 80, 83, 88, 84) {  // PSXT
        Some(StyleChunkType::PsxTiles)
    } else if has_tag(s, 82, 69, 67, 89) {  // RECY
        Some(StyleChunkType::CarRecyclingInfo)
    } else {
        None
    }
}

impl StyleChunkType {
    /// The chunk type that the tag at the start of `bytes` names, if any.
    pub fn from_tag(bytes: &[u8]) -> (r: Option<StyleChunkType>)
        requires
            bytes@.len() >= 4,
        ensures
            r == style_chunk_type(bytes@),
    {
        if tag_is(bytes, 80, 65, 76, 88) {  // PALX
            Some(StyleChunkType::PaletteIndex)
        } else if tag_is(bytes, 80, 80, 65, 76) {  // PPAL
            Some(StyleChunkType::PhysicalPalettes)
        } else if tag_is(bytes, 80, 65, 76, 66) {  // PALB
            Some(StyleChunkType::PaletteBase)
        } else if tag_is(bytes, 84, 73, 76, 69) {  // TILE
            Some(StyleChunkType::Tiles)
        } else if tag_is(bytes, 83, 80, 82, 71) {  // SPRG
            Some(StyleChunkType::SpriteGraphics)
        } else if tag_is(bytes, 83, 80, 82, 88) {  // SPRX
            Some(StyleChunkType::SpriteIndex)
        } else if tag_is(bytes, 83, 80, 82, 66) {  // SPRB
            Some(StyleChunkType::SpriteBases)
        } else if tag_is(bytes, 68, 69, 76, 83) {  // DELS
            Some(StyleChunkType::DeltaStore)
        } else if tag_is(bytes, 68, 69, 76, 88) {  // DELX
            Some(StyleChunkType::DeltaIndex)
        } else if tag_is(bytes, 70, 79, 78, 66) {  // FONB
            Some(StyleChunkType::FontBase)
        } else if tag_is(bytes, 67, 65, 82, 73) {  // CARI
            Some(StyleChunkType::CarInfo)
        } else if tag_is(bytes, 79, 66, 74, 73) {  // OBJI
            Some(StyleChunkType::MapObjectInfo)
        } else if tag_is(bytes, 80, 83, 88, 84) {  // PSXT
            Some(StyleChunkType::PsxTiles)
        } else if tag_is(bytes, 82, 69, 67, 89) {  // RECY
            Some(StyleChunkType::CarRecyclingInfo)
        } else {
            None
        }
    }
}

/// The decoded chunks of a style file met so far; a later chunk of a type
/// replaces an earlier one.
pub struct StyleParts {
    pub tiles: Option<Seq<Seq<u8>>>,
    pub palette_index: Option<Seq<u16>>,
    pub palette_base: Option<PaletteBase>,
    pub physical_palettes: Option<Seq<Seq<u32>>>,
}

/// No chunk met yet.
pub open spec fn no_parts() -> StyleParts {
    StyleParts { tiles: None, palette_index: None, palette_base: None, physical_palettes: None }
}

/// Whether chunks of type `t` are decoded rather than skipped.
pub open spec fn is_decoded(t: StyleChunkType) -> bool {
    t == StyleChunkType::Tiles || t == StyleChunkType::PhysicalPalettes || t
        == StyleChunkType::PaletteBase || t == StyleChunkType::PaletteIndex
}

/// Takes in a decoded chunk of type `t`, declared size `size` and payload
/// starting `b`: the chunks met after it, and the number of bytes it takes.
pub open spec fn style_load(parts: StyleParts, t: StyleChunkType, size: u32, b: Seq<u8>) -> Result<
    (StyleParts, int),
    ParseError,
> {
    match t {
        StyleChunkType::Tiles => match tiles_chunk(b, size) {
            None => Err(ParseError::Truncated),
            Some((v, n)) => Ok((StyleParts { tiles: Some(v), ..parts }, n)),
        },
        StyleChunkType::PhysicalPalettes => match palettes_chunk(b, size) {
            None => Err(ParseError::Truncated),
            Some((v, n)) => Ok((StyleParts { physical_palettes: Some(v), ..parts }, n)),
        },
        StyleChunkType::PaletteBase => match palette_base_chunk(b) {
            None => Err(ParseError::Truncated),
            Some((v, n)) => Ok((StyleParts { palette_base: Some(v), ..parts }, n)),
        },
        StyleChunkType::PaletteIndex => match palette_index_chunk(b, size) {
            None => Err(ParseError::Truncated),
            Some((v, n)) => Ok((StyleParts { palette_index: Some(v), ..parts }, n)),
        },
        _ => Ok((parts, size as int)),
    }
}

/// Walks the chunks that `s` holds, on top of the chunks `parts` already met,
/// up to the end of the bytes or the first unknown tag.
pub open spec fn style_walk(s: Seq<u8>, parts: StyleParts) -> Result<(StyleParts, StreamEnd), ParseError>
    decreases s.len(),
{
    if s.len() < 4 {
        Ok((parts, StreamEnd::Exhausted))
    } else if s.len() < 8 {
        Err(ParseError::Truncated)
    } else {
        let b = chunk_body(s);
        match style_chunk_type(s) {
            None => Ok((parts, StreamEnd::UnknownTag)),
            Some(t) => if is_decoded(t) {
                match style_load(parts, t, le_u32(s, 4), b) {
                    Err(e) => Err(e),
                    Ok((next, n)) => if 0 <= n <= b.len() {
                        style_walk(b.subrange(n, b.len() as int), next)
                    } else {
                        Err(ParseError::Truncated)
                    },
                }
            } else {
                match after_skip(s) {
                    None => Ok((parts, StreamEnd::Exhausted)),
                    Some(rest) => style_walk(rest, parts),
                }
            },
        }
    }
}

/// What a decoded style file holds.
pub struct StyleView {
    pub tiles: Seq<Seq<u8>>,
    pub palette_index: Seq<u16>,
    pub palette_base: PaletteBase,
    pub physical_palettes: Seq<Seq<u32>>,
}

/// What the chunks met amount to: the tiles and the palette index must be
/// there (the tiles are asked for first); missing palette bases are zero and
/// missing palettes none.
pub open spec fn style_build(parts: StyleParts) -> Result<StyleView, ChunkBuilderError> {
    match (parts.tiles, parts.palette_index) {
        (None, _) => Err(ChunkBuilderError::MissingTilesChunk),
        (Some(_), None) => Err(ChunkBuilderError::MissingPaletteIndexChunk),
        (Some(tiles), Some(palette_index)) => Ok(
            StyleView {
                tiles,
                palette_index,
                palette_base: match parts.palette_base {
                    Some(b) => b,
                    None => zero_palette_base(),
                },
                physical_palettes: match parts.physical_palettes {
                    Some(p) => p,
                    None => Seq::empty(),
                },
            },
        ),
    }
}

/// What decoding ends in once the chunks are walked: in strict decoding an
/// unknown tag is an error; then the required chunks must be there.
pub open spec fn style_outcome(
    walked: Result<(StyleParts, StreamEnd), ParseError>,
    strict: bool,
) -> Result<StyleView, ParseError> {
    match walked {
        Err(e) => Err(e),
        Ok((parts, end)) => if strict && end == StreamEnd::UnknownTag {
            Err(ParseError::UnknownChunkType)
        } else {
            match style_build(parts) {
                Err(e) => Err(ParseError::Incomplete(e)),
                Ok(v) => Ok(v),
            }
        },
    }
}

/// What decoding the style file `s` gives: its header's file type and version
/// and its contents, or the error.
pub open spec fn style_decode(s: Seq<u8>, strict: bool) -> Result<(Seq<char>, u16, StyleView), ParseError> {
    match header_of(s) {
        Err(e) => Err(e),
        Ok((file_type, version)) => match style_outcome(
            style_walk(s.subrange(6, s.len() as int), no_parts()),
            strict,
        ) {
            Err(e) => Err(e),
            Ok(v) => Ok((file_type, version, v)),
        },
    }
}


/// The decoded chunks of a style file met so far.
pub struct ChunkBuilder {
    pub tiles: Option<Vec<Tile>>,
    pub palette_index: Option<PaletteIndex>,
    pub palette_base: Option<PaletteBase>,
    pub physical_palette: Option<Vec<PhysicalPalette>>,
}

impl ChunkBuilder {
    /// What the builder holds.
    pub open spec fn parts(&self) -> StyleParts {
        StyleParts {
            tiles: match self.tiles {
                Some(t) => Some(tile_views(t@)),
                None => None,
            },
            palette_index: match self.palette_index {
                Some(p) => Some(p.physical_index@),
                None => None,
            },
            palette_base: self.palette_base,
            physical_palettes: match self.physical_palette {
                Some(p) => Some(palette_views(p@)),
                None => None,
            },
        }
    }

    /// A builder that has met no chunk.
    pub fn new() -> (r: ChunkBuilder)
        ensures
            r.parts() == no_parts(),
    {
        ChunkBuilder { tiles: None, palette_index: None, palette_base: None, physical_palette: None }
    }

    /// Keeps `tiles` as the tiles.
    pub fn tiles(&mut self, tiles: Vec<Tile>) -> (r: &mut ChunkBuilder)
        ensures
            r.parts() == (StyleParts { tiles: Some(tile_views(tiles@)), ..old(self).parts() }),
            *final(self) == *final(r),
    {
        self.tiles = Some(tiles);
        self
    }

    /// Keeps `physical_palettes` as the physical palettes.
    pub fn physical_palettes(&mut self, physical_palettes: Vec<PhysicalPalette>) -> (r: &mut ChunkBuilder)
        ensures
            r.parts() == (StyleParts {
                physical_palettes: Some(palette_views(physical_palettes@)),
                ..old(self).parts()
            }),
            *final(self) == *final(r),
    {
        self.physical_palette = Some(physical_palettes);
        self
    }

    /// Keeps `palette_index` as the palette index.
    pub fn palette_index(&mut self, palette_index: PaletteIndex) -> (r: &mut ChunkBuilder)
        ensures
            r.parts() == (StyleParts {
                palette_index: Some(palette_index.physical_index@),
                ..old(self).parts()
            }),
            *final(self) == *final(r),
    {
        self.palette_index = Some(palette_index);
        self
    }

    /// Keeps `palette_base` as the palette bases.
    pub fn palette_base(&mut self, palette_base: PaletteBase) -> (r: &mut ChunkBuilder)
        ensures
            r.parts() == (StyleParts { palette_base: Some(palette_base), ..old(self).parts() }),
            *final(self) == *final(r),
    {
        self.palette_base = Some(palette_base);
        self
    }
}


impl ChunkBuilder {
    /// Takes in one chunk of type `chunk_type` and declared size `size`, whose
    /// payload starts `body`. Returns the number of bytes it takes: what the
    /// chunk's decoding reads, or for a skipped chunk its declared size.
    pub fn load_chunk(&mut self, chunk_type: StyleChunkType, size: u32, body: &[u8]) -> (r: Result<usize, ParseError>)
        ensures
            match style_load(old(self).parts(), chunk_type, size, body@) {
                Err(e) => r == Err::<usize, ParseError>(e),
                Ok((parts, n)) => r == Ok::<usize, ParseError>(n as usize) && final(self).parts()
                    == parts,
            },
    {
        match chunk_type {
            StyleChunkType::Tiles => match load_tiles(size, body) {
                Err(e) => Err(e),
                Ok((tiles, used)) => {
                    self.tiles(tiles);
                    Ok(used)
                },
            },
            StyleChunkType::PhysicalPalettes => match load_physical_palettes(size, body) {
                Err(e) => Err(e),
                Ok((palettes, used)) => {
                    self.physical_palettes(palettes);
                    Ok(used)
                },
            },
            StyleChunkType::PaletteBase => match load_palette_base(body) {
                Err(e) => Err(e),
                Ok((base, used)) => {
                    self.palette_base(base);
                    Ok(used)
                },
            },
            StyleChunkType::PaletteIndex => match load_palette_index(size, body) {
                Err(e) => Err(e),
                Ok((index, used)) => {
                    self.palette_index(index);
                    Ok(used)
                },
            },
            _ => Ok(size as usize),
        }
    }
}


/// The chunks of a complete style file.
#[derive(Debug)]
pub struct StyleFileChunks {
    pub tiles: Vec<Tile>,
    pub palette_index: PaletteIndex,
    pub palette_base: PaletteBase,
    pub physical_palettes: Vec<PhysicalPalette>,
}

impl StyleFileChunks {
    /// What the chunks hold.
    pub open spec fn contents(&self) -> StyleView {
        StyleView {
            tiles: tile_views(self.tiles@),
            palette_index: self.palette_index.physical_index@,
            palette_base: self.palette_base,
            physical_palettes: palette_views(self.physical_palettes@),
        }
    }
}

impl ChunkBuilder {
    /// The chunks of the file, once all are in: the tiles and the palette index
    /// must have been met. Missing palette bases are zero and missing palettes none.
    pub fn build(self) -> (r: Result<StyleFileChunks, ChunkBuilderError>)
        ensures
            match style_build(self.parts()) {
                Err(e) => r == Err::<StyleFileChunks, ChunkBuilderError>(e),
                Ok(v) => r matches Ok(c) && c.contents() == v,
            },
    {
        let tiles = match self.tiles {
            None => return Err(ChunkBuilderError::MissingTilesChunk),
            Some(t) => t,
        };
        let palette_index = match self.palette_index {
            None => return Err(ChunkBuilderError::MissingPaletteIndexChunk),
            Some(p) => p,
        };
        let palette_base = match self.palette_base {
            Some(b) => b,
            None => PaletteBase {
                tile: 0,
                sprite: 0,
                car_remap: 0,
                ped_remap: 0,
                code_obj_remap: 0,
                map_obj_remap: 0,
                user_remap: 0,
                font_remap: 0,
            },
        };
        let physical_palettes = match self.physical_palette {
            Some(p) => p,
            None => Vec::new(),
        };
        proof {
            assert(palette_views(physical_palettes@) =~= match self.parts().physical_palettes {
                Some(p) => p,
                None => Seq::empty(),
            });
        }
        Ok(StyleFileChunks { tiles, palette_index, palette_base, physical_palettes })
    }
}

/// A decoded style file.
#[derive(Debug)]
pub struct StyleFile {
    pub header: FileHeader,
    pub tiles: Vec<Tile>,
    pub palette_index: PaletteIndex,
    pub palette_base: PaletteBase,
    pub physical_palette: Vec<PhysicalPalette>,
}

/// Whether `r` is the decoded style file that `expected` describes, or its error.
pub open spec fn is_style_result(
    r: Result<StyleFile, ParseError>,
    expected: Result<(Seq<char>, u16, StyleView), ParseError>,
) -> bool {
    match expected {
        Ok((file_type, version, v)) => r matches Ok(f) && f.header.file_type@ == file_type
            && f.header.version == version && tile_views(f.tiles@) == v.tiles
            && f.palette_index.physical_index@ == v.palette_index && f.palette_base == v.palette_base
            && palette_views(f.physical_palette@) == v.physical_palettes,
        Err(e) => r == Err::<StyleFile, ParseError>(e),
    }
}

/// Walks the chunks of `chunks` (a style file after its header) and collects them.
fn read_chunks(chunks: &[u8], strict: bool) -> (r: Result<StyleFileChunks, ParseError>)
    ensures
        match style_outcome(style_walk(chunks@, no_parts()), strict) {
            Err(e) => r == Err::<StyleFileChunks, ParseError>(e),
            Ok(v) => r matches Ok(c) && c.contents() == v,
        },
{
    let mut builder = ChunkBuilder::new();
    let mut rest = chunks;
    loop
        invariant
            style_walk(rest@, builder.parts()) == style_walk(chunks@, no_parts()),
        decreases rest@.len(),
    {
        let size = match read_chunk_head(rest) {
            Err(e) => return Err(e),
            Ok(None) => {
                return match builder.build() {
                    Err(e) => Err(ParseError::Incomplete(e)),
                    Ok(c) => Ok(c),
                };
            },
            Ok(Some(size)) => size,
        };
        let chunk_type = match StyleChunkType::from_tag(rest) {
            None => {
                if strict {
                    return Err(ParseError::UnknownChunkType);
                }
                return match builder.build() {
                    Err(e) => Err(ParseError::Incomplete(e)),
                    Ok(c) => Ok(c),
                };
            },
            Some(t) => t,
        };
        let body = &rest[CHUNK_HEAD_SIZE..rest.len()];
        assert(body@ == chunk_body(rest@));
        let used = match builder.load_chunk(chunk_type, size, body) {
            Err(e) => return Err(e),
            Ok(used) => used,
        };
        if used > body.len() {
            return match builder.build() {
                Err(e) => Err(ParseError::Incomplete(e)),
                Ok(c) => Ok(c),
            };
        }
        rest = &body[used..body.len()];
    }
}

impl StyleFile {
    /// Decodes a style file. An unknown chunk tag ends the chunks, as the end
    /// of the bytes does.
    pub fn from_bytes(bytes: Vec<u8>) -> (r: Result<StyleFile, ParseError>)
        ensures
            is_style_result(r, style_decode(bytes@, false)),
    {
        StyleFile::decode(bytes.as_slice(), false)
    }

    /// Decodes a style file, failing with `UnknownChunkType` where a chunk tag
    /// that the format does not know stands before the end of the bytes.
    pub fn from_bytes_strict(bytes: Vec<u8>) -> (r: Result<StyleFile, ParseError>)
        ensures
            is_style_result(r, style_decode(bytes@, true)),
    {
        StyleFile::decode(bytes.as_slice(), true)
    }

    fn decode(bytes: &[u8], strict: bool) -> (r: Result<StyleFile, ParseError>)
        ensures
            is_style_result(r, style_decode(bytes@, strict)),
    {
        let header = match read_header(bytes) {
            Err(e) => return Err(e),
            Ok(h) => h,
        };
        match read_chunks(&bytes[HEADER_SIZE..bytes.len()], strict) {
            Err(e) => Err(e),
            Ok(chunks) => Ok(
                StyleFile {
                    header,
                    tiles: chunks.tiles,
                    palette_index: chunks.palette_index,
                    palette_base: chunks.palette_base,
                    physical_palette: chunks.physical_palettes,
                },
            ),
        }
    }
}


/// The colours of tile `id`'s pixels, each pixel looked up in the physical
/// palette that the palette index gives the tile; `None` where the tile, its
/// index entry, its palette or a pixel's colour is missing.
pub open spec fn tile_colors_of(
    tiles: Seq<Seq<u8>>,
    palette_index: Seq<u16>,
    palettes: Seq<Seq<u32>>,
    id: int,
) -> Option<Seq<u32>> {
    if 0 <= id < tiles.len() && id < palette_index.len() && palette_index[id] < palettes.len()
        && (forall|i: int|
        0 <= i < tiles[id].len() ==> #[trigger] tiles[id][i] < palettes[palette_index[id] as int].len())
    {
        let colors = palettes[palette_index[id] as int];
        Some(Seq::new(tiles[id].len(), |i: int| colors[tiles[id][i] as int]))
    } else {
        None
    }
}

impl StyleFile {
    /// The colours of tile `tile_id`'s pixels, in pixel order.
    pub fn tile_colors(&self, tile_id: usize) -> (r: Option<Vec<u32>>)
        ensures
            match tile_colors_of(
                tile_views(self.tiles@),
                self.palette_index.physical_index@,
                palette_views(self.physical_palette@),
                tile_id as int,
            ) {
                None => r is None,
                Some(c) => r matches Some(v) && v@ == c,
            },
    {
        if tile_id >= self.tiles.len() || tile_id >= self.palette_index.physical_index.len() {
            return None;
        }
        let palette_id = self.palette_index.physical_index[tile_id] as usize;
        if palette_id >= self.physical_palette.len() {
            return None;
        }
        let pixels = &self.tiles[tile_id].0;
        let colors = &self.physical_palette[palette_id].colors;
        let ghost tile = tile_views(self.tiles@)[tile_id as int];
        let ghost palette = palette_views(self.physical_palette@)[palette_id as int];
        assert(pixels@ == tile);
        assert(colors@ == palette);
        let mut out: Vec<u32> = Vec::with_capacity(pixels.len());
        let mut i: usize = 0;
        while i < pixels.len()
            invariant
                i <= pixels@.len(),
                pixels@ == tile,
                colors@ == palette,
                tile_id < self.tiles@.len(),
                tile_id < self.palette_index.physical_index@.len(),
                palette_id == self.palette_index.physical_index@[tile_id as int],
                palette_id < self.physical_palette@.len(),
                tile == tile_views(self.tiles@)[tile_id as int],
                palette == palette_views(self.physical_palette@)[palette_id as int],
                forall|j: int| 0 <= j < i ==> #[trigger] pixels@[j] < colors@.len(),
                out@ == Seq::new(i as nat, |j: int| colors@[pixels@[j] as int]),
            decreases pixels@.len() - i,
        {
            let p = pixels[i] as usize;
            if p >= colors.len() {
                assert(tile_views(self.tiles@)[tile_id as int][i as int] >= palette.len());
                return None;
            }
            out.push(colors[p]);
            i += 1;
            assert(out@ =~= Seq::new(i as nat, |j: int| colors@[pixels@[j] as int]));
        }
        Some(out)
    }
}


/// A chunk of a skipped type, followed by exactly its declared size of payload,
/// changes nothing about the walk of the chunks after it.
pub proof fn lemma_skipped_chunk_is_passed_over(chunk: Seq<u8>, rest: Seq<u8>, parts: StyleParts)
    requires
        chunk.len() >= 8,
        chunk_size(chunk) == chunk.len() - 8,
        style_chunk_type(chunk) matches Some(t) && !is_decoded(t),
    ensures
        style_walk(chunk + rest, parts) == style_walk(rest, parts),
{
    let s = chunk + rest;
    assert(s.subrange(0, 8) =~= chunk.subrange(0, 8));
    assert(s[0] == chunk[0] && s[1] == chunk[1] && s[2] == chunk[2] && s[3] == chunk[3]);
    assert(s[4] == chunk[4] && s[5] == chunk[5] && s[6] == chunk[6] && s[7] == chunk[7]);
    assert(style_chunk_type(s) == style_chunk_type(chunk));
    assert(chunk_size(s) == chunk_size(chunk));
    let body = chunk_body(s);
    assert(body.subrange(chunk_size(s) as int, body.len() as int) =~= rest);
}

/// Decoding a style file whose header is followed by a chunk of a skipped type
/// (with exactly its declared size of payload) gives what decoding the file
/// without that chunk gives.
pub proof fn lemma_skipped_chunk_changes_nothing(
    header: Seq<u8>,
    chunk: Seq<u8>,
    rest: Seq<u8>,
    strict: bool,
)
    requires
        header.len() == 6,
        chunk.len() >= 8,
        chunk_size(chunk) == chunk.len() - 8,
        style_chunk_type(chunk) matches Some(t) && !is_decoded(t),
    ensures
        style_decode(header + chunk + rest, strict) == style_decode(header + rest, strict),
{
    let with = header + chunk + rest;
    let without = header + rest;
    assert(with.subrange(0, 4) =~= without.subrange(0, 4));
    assert(with[4] == without[4] && with[5] == without[5]);
    assert(with.subrange(6, with.len() as int) =~= chunk + rest);
    assert(without.subrange(6, without.len() as int) =~= rest);
    lemma_skipped_chunk_is_passed_over(chunk, rest, no_parts());
}

/// The types of the chunks that the walk of `s` meets, in order, up to its end
/// or its first error.
pub open spec fn style_chunks_met(s: Seq<u8>, parts: StyleParts) -> Seq<StyleChunkType>
    decreases s.len(),
{
    if s.len() < 8 {
        Seq::empty()
    } else {
        let b = chunk_body(s);
        match style_chunk_type(s) {
            None => Seq::empty(),
            Some(t) => if is_decoded(t) {
                match style_load(parts, t, le_u32(s, 4), b) {
                    Err(_) => Seq::empty(),
                    Ok((next, n)) => if 0 <= n <= b.len() {
                        seq![t] + style_chunks_met(b.subrange(n, b.len() as int), next)
                    } else {
                        Seq::empty()
                    },
                }
            } else {
                match after_skip(s) {
                    None => seq![t],
                    Some(rest) => seq![t] + style_chunks_met(rest, parts),
                }
            },
        }
    }
}

/// The chunks met by a walk are the first one's type, then those met after it.
proof fn lemma_met_cons(t: StyleChunkType, tail: Seq<StyleChunkType>, u: StyleChunkType)
    ensures
        (seq![t] + tail).contains(u) <==> (t == u || tail.contains(u)),
{
    let met = seq![t] + tail;
    if tail.contains(u) {
        let k = choose|k: int| 0 <= k < tail.len() && tail[k] == u;
        assert(met[k + 1] == u);
    }
    if met.contains(u) && t != u {
        let k = choose|k: int| 0 <= k < met.len() && met[k] == u;
        assert(tail[k - 1] == u);
    }
    assert(met[0] == t);
}

/// A walk that meets no `TILE` chunk keeps the tiles it started with, and one
/// that meets no `PALX` chunk keeps the palette index it started with; a walk
/// that starts with tiles or meets a `TILE` chunk ends with tiles.
pub proof fn lemma_walk_keeps_unmet(s: Seq<u8>, parts: StyleParts)
    ensures
        style_walk(s, parts) matches Ok((after, _)) ==> {
            &&& !style_chunks_met(s, parts).contains(StyleChunkType::Tiles) ==> after.tiles
                == parts.tiles
            &&& !style_chunks_met(s, parts).contains(StyleChunkType::PaletteIndex)
                ==> after.palette_index == parts.palette_index
            &&& (parts.tiles is Some || style_chunks_met(s, parts).contains(StyleChunkType::Tiles))
                ==> after.tiles is Some
        },
    decreases s.len(),
{
    if s.len() >= 8 {
        let b = chunk_body(s);
        match style_chunk_type(s) {
            None => {},
            Some(t) => {
                if is_decoded(t) {
                    match style_load(parts, t, le_u32(s, 4), b) {
                        Err(_) => {},
                        Ok((next, n)) => {
                            if 0 <= n <= b.len() {
                                let tail = b.subrange(n, b.len() as int);
                                lemma_walk_keeps_unmet(tail, next);
                                let rest_met = style_chunks_met(tail, next);
                                lemma_met_cons(t, rest_met, StyleChunkType::Tiles);
                                lemma_met_cons(t, rest_met, StyleChunkType::PaletteIndex);
                            }
                        },
                    }
                } else {
                    match after_skip(s) {
                        None => {},
                        Some(rest) => {
                            lemma_walk_keeps_unmet(rest, parts);
                            let rest_met = style_chunks_met(rest, parts);
                            lemma_met_cons(t, rest_met, StyleChunkType::Tiles);
                            lemma_met_cons(t, rest_met, StyleChunkType::PaletteIndex);
                        },
                    }
                }
            },
        }
    }
}

/// Decoding a style file whose chunks hold no `TILE` chunk fails with
/// `MissingTilesChunk`, and one whose chunks hold a `TILE` chunk but no `PALX`
/// chunk fails with `MissingPaletteIndexChunk`; this where the header and the chunks
/// can be read to their end (else a truncation is reported first).
pub proof fn lemma_required_chunks(s: Seq<u8>)
    requires
        header_of(s) is Ok,
        style_walk(s.subrange(6, s.len() as int), no_parts()) is Ok,
    ensures
        !style_chunks_met(s.subrange(6, s.len() as int), no_parts()).contains(StyleChunkType::Tiles)
            ==> style_decode(s, false) == Err::<(Seq<char>, u16, StyleView), ParseError>(
            ParseError::Incomplete(ChunkBuilderError::MissingTilesChunk),
        ),
        style_chunks_met(s.subrange(6, s.len() as int), no_parts()).contains(StyleChunkType::Tiles)
            && !style_chunks_met(s.subrange(6, s.len() as int), no_parts()).contains(
            StyleChunkType::PaletteIndex,
        ) ==> style_decode(s, false) == Err::<(Seq<char>, u16, StyleView), ParseError>(
            ParseError::Incomplete(ChunkBuilderError::MissingPaletteIndexChunk),
        ),
{
    lemma_walk_keeps_unmet(s.subrange(6, s.len() as int), no_parts());
}

} // verus!
