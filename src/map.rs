//! Map files: the column-compressed voxel map (`DMAP` chunk) and its expansion
//! into the dense 256 x 256 x 8 volume of cells.
use crate::block::{block_infos_at, read_block_infos, BlockInfo, Position};
use crate::bytes::{le_u32, le_u32s, read_u32_le, read_u32s_le};
use crate::chunk::{
    after_skip, chunk_body, chunk_size, has_tag, header_of, read_chunk_head, read_header,
    tag_is, ChunkBuilderError, ParseError, StreamEnd, CHUNK_HEAD_SIZE, HEADER_SIZE,
};
use vstd::prelude::*;

verus! {

/// Number of levels.
pub const MAP_Z: usize = 8;

/// Number of columns, one per (x, y).
pub const BASE_ARRAY_SIZE: usize = 65536;

/// Number of cells in the volume.
pub const MAP_CELLS: usize = 524288;

/// The map as the file stores it: for each column an index into `column_infos`,
/// where a column's entry packs its height (low byte) and the level its stored
/// cells start at (next byte), and is followed by one index into `block_infos`
/// for each stored cell.
#[derive(Debug)]
pub struct CompressedMap32 {
    pub base: Vec<u32>,
    pub column_infos: Vec<u32>,
    pub block_infos: Vec<BlockInfo>,
}

/// What a compressed map holds.
pub struct CompressedView {
    pub base: Seq<u32>,
    pub column_infos: Seq<u32>,
    pub block_infos: Seq<BlockInfo>,
}

impl View for CompressedMap32 {
    type V = CompressedView;

    open spec fn view(&self) -> CompressedView {
        CompressedView {
            base: self.base@,
            column_infos: self.column_infos@,
            block_infos: self.block_infos@,
        }
    }
}

/// The height of a column: the low byte of its entry.
pub open spec fn column_height(info: u32) -> int {
    (info % 256) as int
}

/// The level that a column's stored cells start at: the second byte of its entry.
pub open spec fn column_offset(info: u32) -> int {
    ((info / 256) % 256) as int
}

/// The two low bytes of a column entry, cut out with masks and shifts.
proof fn lemma_column_bytes(info: u32)
    ensures
        info & 0xff == info % 256,
        (info >> 8u32) & 0xff == (info / 256) % 256,
{
    assert(info & 0xff == info % 256) by (bit_vector);
    assert((info >> 8u32) & 0xff == (info / 256) % 256) by (bit_vector);
}

impl CompressedView {
    /// The entry of column `xy` (that is, of x = xy % 256, y = xy / 256).
    pub open spec fn column_info(self, xy: int) -> u32 {
        self.column_infos[self.base[xy] as int]
    }

    /// Whether column `xy` stores a cell at level `z`.
    pub open spec fn is_stored(self, xy: int, z: int) -> bool {
        column_offset(self.column_info(xy)) <= z < column_height(self.column_info(xy))
    }

    /// Where in `column_infos` the block index of level `z` of column `xy` stands.
    pub open spec fn slot(self, xy: int, z: int) -> int {
        self.base[xy] + (z - column_offset(self.column_info(xy))) + 1
    }

    /// The cell at level `z` of column `xy`: the block its slot names where the
    /// column stores that level, else the first block, which stands for air.
    pub open spec fn cell(self, xy: int, z: int) -> BlockInfo {
        if self.is_stored(xy, z) {
            self.block_infos[self.column_infos[self.slot(xy, z)] as int]
        } else {
            self.block_infos[0]
        }
    }

    /// Whether every index that the expansion follows stays inside its table.
    pub open spec fn is_expandable(self) -> bool {
        &&& self.block_infos.len() > 0
        &&& self.base.len() == 65536
        &&& forall|xy: int| 0 <= xy < 65536 ==> #[trigger] self.base[xy] < self.column_infos.len()
        &&& forall|xy: int, z: int|
            0 <= xy < 65536 && 0 <= z < 8 && #[trigger] self.is_stored(xy, z) ==> {
                &&& self.slot(xy, z) < self.column_infos.len()
                &&& self.column_infos[self.slot(xy, z)] < self.block_infos.len()
            }
    }

    /// The dense volume: index `i` holds level `i / 65536` of column `i % 65536`,
    /// so that cell (x, y, z) stands at `x + 256 * y + 65536 * z`.
    pub open spec fn expanded(self) -> Seq<BlockInfo> {
        Seq::new(524288, |i: int| self.cell(i % 65536, i / 65536))
    }
}

/// The dense volume: cell (x, y, z) at index `x + 256 * y + 65536 * z`.
#[derive(Debug)]
pub struct UncompressedMap(pub Vec<BlockInfo>);

/// Index of a cell in the dense volume.
pub open spec fn cell_index(x: int, y: int, z: int) -> int {
    x + 256 * y + 65536 * z
}

impl UncompressedMap {
    /// An empty volume, with room for every cell.
    pub fn new() -> (r: UncompressedMap)
        ensures
            r.0@.len() == 0,
    {
        UncompressedMap(Vec::with_capacity(MAP_CELLS))
    }

    /// The cell at `pos`.
    pub fn block_at(&self, pos: Position) -> (r: &BlockInfo)
        requires
            self.0@.len() == 524288,
            pos.z < 8,
        ensures
            *r == self.0@[cell_index(pos.x as int, pos.y as int, pos.z as int)],
    {
        &self.0[pos.x as usize + 256 * pos.y as usize + 65536 * pos.z as usize]
    }
}

/// Expands a compressed map into the dense volume: every cell starts as the
/// first block (air), and each level that a column stores, from its start level
/// up to its height, takes the block that its slot names. Levels from 8 up have
/// no cell in the volume and are passed over. The indices must stay inside
/// their tables (`is_expandable`); decoding a file reports `ColumnOutOfRange`
/// where they do not.
pub fn create_uncompressed_map_from_compressed(compressed: &CompressedMap32) -> (r: UncompressedMap)
    requires
        compressed@.is_expandable(),
    ensures
        r.0@ == compressed@.expanded(),
{
    let c = Ghost(compressed@);
    let sentinel = compressed.block_infos[0];
    let mut cells: Vec<BlockInfo> = Vec::with_capacity(MAP_CELLS);
    let mut i: usize = 0;
    while i < MAP_CELLS
        invariant
            i <= MAP_CELLS,
            cells@.len() == i,
            forall|j: int| 0 <= j < i ==> cells@[j] == sentinel,
        decreases MAP_CELLS - i,
    {
        cells.push(sentinel);
        i += 1;
    }
    let ncols = compressed.column_infos.len();
    let mut xy: usize = 0;
    while xy < BASE_ARRAY_SIZE
        invariant
            xy <= BASE_ARRAY_SIZE,
            ncols == c@.column_infos.len(),
            c@ == compressed@,
            c@.is_expandable(),
            sentinel == c@.block_infos[0],
            cells@.len() == MAP_CELLS,
            forall|a: int, z: int|
                0 <= a < 65536 && 0 <= z < 8 ==> #[trigger] cells@[a + 65536 * z] == if a < xy {
                    c@.cell(a, z)
                } else {
                    sentinel
                },
        decreases BASE_ARRAY_SIZE - xy,
    {
        let col_index = compressed.base[xy] as usize;
        let col_info = compressed.column_infos[col_index];
        proof {
            lemma_column_bytes(col_info);
        }
        let height = (col_info & 0xff) as usize;
        let offset = ((col_info >> 8u32) & 0xff) as usize;
        let top = if height < MAP_Z {
            height
        } else {
            MAP_Z
        };
        let mut z = offset;
        while z < top
            invariant
                xy < BASE_ARRAY_SIZE,
                ncols == c@.column_infos.len(),
                c@ == compressed@,
                c@.is_expandable(),
                sentinel == c@.block_infos[0],
                cells@.len() == MAP_CELLS,
                col_index == c@.base[xy as int],
                col_info == c@.column_info(xy as int),
                height == column_height(col_info),
                offset == column_offset(col_info),
                top <= 8,
                top <= height,
                offset <= z,
                forall|a: int, z2: int|
                    0 <= a < 65536 && 0 <= z2 < 8 ==> #[trigger] cells@[a + 65536 * z2] == if a
                        < xy || (a == xy && z2 < z) {
                        c@.cell(a, z2)
                    } else {
                        sentinel
                    },
            decreases top - z,
        {
            assert(c@.is_stored(xy as int, z as int));
            let slot = col_index + (z - offset) + 1;
            let block = compressed.block_infos[compressed.column_infos[slot] as usize];
            cells.set(xy + 65536 * z, block);
            z += 1;
        }
        xy += 1;
    }
    proof {
        assert forall|i: int| 0 <= i < 524288 implies cells@[i] == c@.expanded()[i] by {
            let a = i % 65536;
            let z = i / 65536;
            assert(i == a + 65536 * z);
            assert(cells@[a + 65536 * z] == c@.cell(a, z));
        }
    }
    assert(cells@ =~= c@.expanded());
    UncompressedMap(cells)
}


/// A map whose columns all have height 0 expands to its first block, air, in every cell.
pub proof fn lemma_flat_columns_expand_to_air(c: CompressedView)
    requires
        c.is_expandable(),
        forall|xy: int| 0 <= xy < 65536 ==> column_height(#[trigger] c.column_info(xy)) == 0,
    ensures
        c.expanded() == Seq::new(524288, |i: int| c.block_infos[0]),
{
    assert forall|i: int| 0 <= i < 524288 implies c.expanded()[i] == c.block_infos[0] by {
        assert(column_height(c.column_info(i % 65536)) == 0);
    }
    assert(c.expanded() =~= Seq::new(524288, |i: int| c.block_infos[0]));
}

/// Size in bytes of the base array of a `DMAP` payload.
const BASE_BYTES: usize = 262144;

/// The compressed map that a `DMAP` payload `b` starts with, and the number of
/// bytes it takes: the base array (65536 `u32`s), then a `u32` count and that many
/// column words, then a `u32` count and that many 12-byte block records.
/// `None` where a read runs past the end of `b`.
pub open spec fn dmap_of(b: Seq<u8>) -> Option<(CompressedView, int)> {
    if b.len() < 262148 {
        None
    } else {
        let n_cols = le_u32(b, 262144);
        let cols_end = 262148 + 4 * n_cols;
        if b.len() < cols_end + 4 {
            None
        } else {
            let n_blocks = le_u32(b, cols_end);
            let end = cols_end + 4 + 12 * n_blocks;
            if b.len() < end {
                None
            } else {
                Some(
                    (
                        CompressedView {
                            base: le_u32s(b, 0, 65536),
                            column_infos: le_u32s(b, 262148, n_cols as nat),
                            block_infos: block_infos_at(b, cols_end + 4, n_blocks as nat),
                        },
                        end,
                    ),
                )
            }
        }
    }
}

/// Decodes the compressed map at the start of a `DMAP` payload; its counts, not
/// the chunk's declared size, say how many bytes it takes. Returns the map and
/// that number of bytes.
pub fn load_compressed_map_32(body: &[u8]) -> (r: Result<(CompressedMap32, usize), ParseError>)
    ensures
        match dmap_of(body@) {
            None => r == Err::<(CompressedMap32, usize), ParseError>(ParseError::Truncated),
            Some((v, n)) => r matches Ok((m, used)) && m@ == v && used == n,
        },
{
    let len = body.len();
    if len < BASE_BYTES + 4 {
        return Err(ParseError::Truncated);
    }
    let base = read_u32s_le(body, 0, BASE_ARRAY_SIZE);
    let n_cols = read_u32_le(body, BASE_BYTES);
    if ((len - (BASE_BYTES + 4)) as u64) < 4 * (n_cols as u64) + 4 {
        return Err(ParseError::Truncated);
    }
    let cols_end = BASE_BYTES + 4 + 4 * n_cols as usize;
    let column_infos = read_u32s_le(body, BASE_BYTES + 4, n_cols as usize);
    let n_blocks = read_u32_le(body, cols_end);
    if ((len - (cols_end + 4)) as u64) < 12 * (n_blocks as u64) {
        return Err(ParseError::Truncated);
    }
    let block_infos = read_block_infos(body, cols_end + 4, n_blocks as usize);
    let end = cols_end + 4 + 12 * n_blocks as usize;
    Ok((CompressedMap32 { base, column_infos, block_infos }, end))
}


/// Size in bytes of a `UMAP` payload: one block record for each cell.
pub const UMAP_BYTES: usize = 6291456;

/// Decodes a legacy `UMAP` payload, which stores every cell of the volume as a
/// block record, in the order of the dense volume.
pub fn load_uncompressed_map(body: &[u8]) -> (r: Result<UncompressedMap, ParseError>)
    ensures
        body@.len() < 6291456 ==> r matches Err(ParseError::Truncated),
        body@.len() >= 6291456 ==> (r matches Ok(m) && m.0@ == block_infos_at(body@, 0, 524288)),
{
    if body.len() < UMAP_BYTES {
        return Err(ParseError::Truncated);
    }
    Ok(UncompressedMap(read_block_infos(body, 0, MAP_CELLS)))
}

impl CompressedMap32 {
    /// Whether every index that the expansion follows stays inside its table.
    pub fn is_expandable(&self) -> (r: bool)
        ensures
            r == self@.is_expandable(),
    {
        if self.block_infos.len() == 0 || self.base.len() != BASE_ARRAY_SIZE {
            return false;
        }
        let ncols = self.column_infos.len();
        let nblocks = self.block_infos.len();
        let mut xy: usize = 0;
        while xy < BASE_ARRAY_SIZE
            invariant
                xy <= BASE_ARRAY_SIZE,
                ncols == self@.column_infos.len(),
                nblocks == self@.block_infos.len(),
                self@.block_infos.len() > 0,
                self@.base.len() == 65536,
                forall|a: int| 0 <= a < xy ==> #[trigger] self@.base[a] < ncols,
                forall|a: int, z: int|
                    0 <= a < xy && 0 <= z < 8 && #[trigger] self@.is_stored(a, z) ==> {
                        &&& self@.slot(a, z) < ncols
                        &&& self@.column_infos[self@.slot(a, z)] < nblocks
                    },
            decreases BASE_ARRAY_SIZE - xy,
        {
            let col = self.base[xy] as usize;
            if col >= ncols {
                return false;
            }
            let info = self.column_infos[col];
            proof {
                lemma_column_bytes(info);
            }
            let height = (info & 0xff) as usize;
            let offset = ((info >> 8u32) & 0xff) as usize;
            let top = if height < MAP_Z {
                height
            } else {
                MAP_Z
            };
            let mut z = offset;
            while z < top
                invariant
                    xy < BASE_ARRAY_SIZE,
                    ncols == self@.column_infos.len(),
                    nblocks == self@.block_infos.len(),
                    col == self@.base[xy as int],
                    col < ncols,
                    info == self@.column_info(xy as int),
                    height == column_height(info),
                    offset == column_offset(info),
                    top <= 8,
                    top <= height,
                    offset <= z,
                    forall|z2: int|
                        offset <= z2 < z ==> {
                            &&& #[trigger] self@.slot(xy as int, z2) < ncols
                            &&& self@.column_infos[self@.slot(xy as int, z2)] < nblocks
                        },
                decreases top - z,
            {
                assert(self@.is_stored(xy as int, z as int));
                if z - offset >= ncols - col - 1 {
                    return false;
                }
                let slot = col + (z - offset) + 1;
                if self.column_infos[slot] as usize >= nblocks {
                    return false;
                }
                z += 1;
            }
            proof {
                assert forall|z2: int|
                    0 <= z2 < 8 && #[trigger] self@.is_stored(xy as int, z2) implies {
                        &&& self@.slot(xy as int, z2) < ncols
                        &&& self@.column_infos[self@.slot(xy as int, z2)] < nblocks
                    } by {
                    assert(self@.slot(xy as int, z2) < ncols);
                }
            }
            xy += 1;
        }
        true
    }
}


/// The chunk types of a map file. Only `CompressedMap32Bit` (`DMAP`) is decoded;
/// the others are skipped by their declared size, the legacy `UMAP` included
/// (`load_uncompressed_map` decodes such a payload on its own).
#[derive(Debug, Clone, Copy, PartialEq, Eq, Structural)]
pub enum MapChunkType {
    UncompressedMap,
    CompressedMap16Bit,
    CompressedMap32Bit,
    MapZones,
    MapObjects,
    PsxMappingTable,
    TileAnimation,
    Lights,
    JunctionList,
}

/// The chunk type that the tag at the start of `s` names, if any.
pub open spec fn map_chunk_type(s: Seq<u8>) -> Option<MapChunkType> {
    if has_tag(s, 85, 77, 65, 80) {  // UMAP
        Some(MapChunkType::UncompressedMap)
    } else if has_tag(s, 67, 77, 65, 80) {  // CMAP
        Some(MapChunkType::CompressedMap16Bit)
    } else if has_tag(s, 68, 77, 65, 80) {  // DMAP
        Some(MapChunkType::CompressedMap32Bit)
    } else if has_tag(s, 90, 79, 78, 69) {  // ZONE
        Some(MapChunkType::MapZones)
    } else if has_tag(s, 77, 79, 66, 74) {  // MOBJ
        Some(MapChunkType::MapObjects)
    } else if has_tag(s, 80, 83, 88, 77) {  // PSXM
        Some(MapChunkType::PsxMappingTable)
    } else if has_tag(s, 65, 78, 73, 77) {  // ANIM
        Some(MapChunkType::TileAnimation)
    } else if has_tag(s, 76, 71, 72, 84) {  // LGHT
        Some(MapChunkType::Lights)
    } else if has_tag(s, 82, 71, 69, 78) {  // RGEN
        Some(MapChunkType::JunctionList)
    } else {
        None
    }
}

impl MapChunkType {
    /// The chunk type that the tag at the start of `bytes` names, if any.
    pub fn from_tag(bytes: &[u8]) -> (r: Option<MapChunkType>)
        requires
            bytes@.len() >= 4,
        ensures
            r == map_chunk_type(bytes@),
    {
        if tag_is(bytes, 85, 77, 65, 80) {  // UMAP
            Some(MapChunkType::UncompressedMap)
        } else if tag_is(bytes, 67, 77, 65, 80) {  // CMAP
            Some(MapChunkType::CompressedMap16Bit)
        } else if tag_is(bytes, 68, 77, 65, 80) {  // DMAP
            Some(MapChunkType::CompressedMap32Bit)
        } else if tag_is(bytes, 90, 79, 78, 69) {  // ZONE
            Some(MapChunkType::MapZones)
        } else if tag_is(bytes, 77, 79, 66, 74) {  // MOBJ
            Some(MapChunkType::MapObjects)
        } else if tag_is(bytes, 80, 83, 88, 77) {  // PSXM
            Some(MapChunkType::PsxMappingTable)
        } else if tag_is(bytes, 65, 78, 73, 77) {  // ANIM
            Some(MapChunkType::TileAnimation)
        } else if tag_is(bytes, 76, 71, 72, 84) {  // LGHT
            Some(MapChunkType::Lights)
        } else if tag_is(bytes, 82, 71, 69, 78) {  // RGEN
            Some(MapChunkType::JunctionList)
        } else {
            None
        }
    }
}

/// Walks the chunks that `s` holds, keeping the last compressed map met (on
/// top of `found`), up to the end of the bytes or the first unknown tag.
pub open spec fn map_walk(s: Seq<u8>, found: Option<CompressedView>) -> Result<
    (Option<CompressedView>, StreamEnd),
    ParseError,
>
    decreases s.len(),
{
    if s.len() < 4 {
        Ok((found, StreamEnd::Exhausted))
    } else if s.len() < 8 {
        Err(ParseError::Truncated)
    } else {
        match map_chunk_type(s) {
            None => Ok((found, StreamEnd::UnknownTag)),
            Some(MapChunkType::CompressedMap32Bit) => match dmap_of(chunk_body(s)) {
                None => Err(ParseError::Truncated),
                Some((v, n)) => if 0 <= n <= chunk_body(s).len() {
                    map_walk(chunk_body(s).subrange(n, chunk_body(s).len() as int), Some(v))
                } else {
                    Err(ParseError::Truncated)
                },
            },
            Some(_) => match after_skip(s) {
                None => Ok((found, StreamEnd::Exhausted)),
                Some(rest) => map_walk(rest, found),
            },
        }
    }
}

/// What decoding ends in once the chunks are walked: in strict decoding an
/// unknown tag is an error; then the compressed map must be there and expandable.
pub open spec fn map_outcome(
    walked: Result<(Option<CompressedView>, StreamEnd), ParseError>,
    strict: bool,
) -> Result<CompressedView, ParseError> {
    match walked {
        Err(e) => Err(e),
        Ok((found, end)) => if strict && end == StreamEnd::UnknownTag {
            Err(ParseError::UnknownChunkType)
        } else {
            match found {
                None => Err(ParseError::Incomplete(ChunkBuilderError::MissingCompressedMapChunk)),
                Some(v) => if v.is_expandable() {
                    Ok(v)
                } else {
                    Err(ParseError::ColumnOutOfRange)
                },
            }
        },
    }
}

/// What decoding the map file `s` gives: its compressed map, or the error.
pub open spec fn map_decode(s: Seq<u8>, strict: bool) -> Result<CompressedView, ParseError> {
    match header_of(s) {
        Err(e) => Err(e),
        Ok(_) => map_outcome(map_walk(s.subrange(6, s.len() as int), None), strict),
    }
}

/// A decoded map file.
#[derive(Debug)]
pub struct MapFile {
    /// The dense volume; always present in a decoded map.
    pub uncompressed_map: Option<UncompressedMap>,
    pub compressed_map_32bit: CompressedMap32,
}

/// Whether `r` is the decoded map that `expected` describes, or its error.
pub open spec fn is_map_result(r: Result<MapFile, ParseError>, expected: Result<CompressedView, ParseError>) -> bool {
    match expected {
        Ok(v) => r matches Ok(m) && m.compressed_map_32bit@ == v && (m.uncompressed_map matches Some(
            u,
        ) && u.0@ == v.expanded()),
        Err(e) => r == Err::<MapFile, ParseError>(e),
    }
}

/// The chunks of a map file met so far.
pub struct MapBuilder {
    pub compressed_map_32: Option<CompressedMap32>,
}

impl MapBuilder {
    /// What the builder holds.
    pub open spec fn found(&self) -> Option<CompressedView> {
        match self.compressed_map_32 {
            Some(m) => Some(m@),
            None => None,
        }
    }

    /// A builder that has met no chunk.
    pub fn new() -> (r: MapBuilder)
        ensures
            r.found() is None,
    {
        MapBuilder { compressed_map_32: None }
    }

    /// Takes in one chunk of type `chunk_type` and declared size `size`, whose
    /// payload starts `body`. Returns the number of bytes it takes: for a `DMAP`
    /// chunk what its counts say, for any other its declared size (it is skipped).
    pub fn load_chunk(&mut self, chunk_type: MapChunkType, size: u32, body: &[u8]) -> (r: Result<usize, ParseError>)
        ensures
            chunk_type == MapChunkType::CompressedMap32Bit ==> match dmap_of(body@) {
                None => r == Err::<usize, ParseError>(ParseError::Truncated) && final(self).found()
                    == old(self).found(),
                Some((v, n)) => r == Ok::<usize, ParseError>(n as usize) && final(self).found()
                    == Some(v),
            },
            chunk_type != MapChunkType::CompressedMap32Bit ==> r == Ok::<usize, ParseError>(
                size as usize,
            ) && final(self).found() == old(self).found(),
    {
        match chunk_type {
            MapChunkType::CompressedMap32Bit => match load_compressed_map_32(body) {
                Ok((m, used)) => {
                    self.compressed_map_32 = Some(m);
                    Ok(used)
                },
                Err(e) => Err(e),
            },
            _ => Ok(size as usize),
        }
    }

    /// The decoded map, once every chunk is in: the compressed map must have
    /// been met, and its indices must stay inside its tables.
    pub fn build(self) -> (r: Result<MapFile, ParseError>)
        ensures
            is_map_result(
                r,
                map_outcome(Ok((self.found(), StreamEnd::Exhausted)), false),
            ),
    {
        match self.compressed_map_32 {
            None => Err(ParseError::Incomplete(ChunkBuilderError::MissingCompressedMapChunk)),
            Some(compressed) => {
                if !compressed.is_expandable() {
                    return Err(ParseError::ColumnOutOfRange);
                }
                let uncompressed = create_uncompressed_map_from_compressed(&compressed);
                Ok(MapFile { uncompressed_map: Some(uncompressed), compressed_map_32bit: compressed })
            },
        }
    }
}

/// Walks the chunks of `chunks` (a map file after its header) and builds the map.
fn read_chunks(chunks: &[u8], strict: bool) -> (r: Result<MapFile, ParseError>)
    ensures
        is_map_result(r, map_outcome(map_walk(chunks@, None), strict)),
{
    let mut builder = MapBuilder::new();
    let mut rest = chunks;
    loop
        invariant
            map_walk(rest@, builder.found()) == map_walk(chunks@, None),
        decreases rest@.len(),
    {
        let size = match read_chunk_head(rest) {
            Err(e) => return Err(e),
            Ok(None) => return builder.build(),
            Ok(Some(size)) => size,
        };
        let chunk_type = match MapChunkType::from_tag(rest) {
            None => {
                if strict {
                    return Err(ParseError::UnknownChunkType);
                }
                return builder.build();
            },
            Some(t) => t,
        };
        let body = &rest[CHUNK_HEAD_SIZE..rest.len()];
        assert(body@ == chunk_body(rest@));
        let used = match builder.load_chunk(chunk_type, size, body) {
            Err(e) => return Err(e),
            Ok(used) => used,
        };
        if used > body.len() {
            return builder.build();
        }
        rest = &body[used..body.len()];
    }
}

impl MapFile {
    /// Decodes a map file. An unknown chunk tag ends the chunks, as the end of
    /// the bytes does.
    pub fn from_bytes(bytes: Vec<u8>) -> (r: Result<MapFile, ParseError>)
        ensures
            is_map_result(r, map_decode(bytes@, false)),
    {
        MapFile::decode(bytes.as_slice(), false)
    }

    /// Decodes a map file, failing with `UnknownChunkType` where a chunk tag
    /// that the format does not know stands before the end of the bytes.
    pub fn from_bytes_strict(bytes: Vec<u8>) -> (r: Result<MapFile, ParseError>)
        ensures
            is_map_result(r, map_decode(bytes@, true)),
    {
        MapFile::decode(bytes.as_slice(), true)
    }

    fn decode(bytes: &[u8], strict: bool) -> (r: Result<MapFile, ParseError>)
        ensures
            is_map_result(r, map_decode(bytes@, strict)),
    {
        match read_header(bytes) {
            Err(e) => Err(e),
            Ok(_) => read_chunks(&bytes[HEADER_SIZE..bytes.len()], strict),
        }
    }
}


/// A chunk of a skipped type, followed by exactly its declared size of payload,
/// changes nothing about the walk of the chunks after it.
pub proof fn lemma_skipped_map_chunk_is_passed_over(
    chunk: Seq<u8>,
    rest: Seq<u8>,
    found: Option<CompressedView>,
)
    requires
        chunk.len() >= 8,
        chunk_size(chunk) == chunk.len() - 8,
        map_chunk_type(chunk) matches Some(t) && t != MapChunkType::CompressedMap32Bit,
    ensures
        map_walk(chunk + rest, found) == map_walk(rest, found),
{
    let s = chunk + rest;
    assert(s[0] == chunk[0] && s[1] == chunk[1] && s[2] == chunk[2] && s[3] == chunk[3]);
    assert(s[4] == chunk[4] && s[5] == chunk[5] && s[6] == chunk[6] && s[7] == chunk[7]);
    assert(map_chunk_type(s) == map_chunk_type(chunk));
    assert(chunk_size(s) == chunk_size(chunk));
    let body = chunk_body(s);
    assert(body.subrange(chunk_size(s) as int, body.len() as int) =~= rest);
}

/// Decoding a map file whose header is followed by a chunk of a skipped type
/// (with exactly its declared size of payload) gives what decoding the file
/// without that chunk gives.
pub proof fn lemma_skipped_map_chunk_changes_nothing(
    header: Seq<u8>,
    chunk: Seq<u8>,
    rest: Seq<u8>,
    strict: bool,
)
    requires
        header.len() == 6,
        chunk.len() >= 8,
        chunk_size(chunk) == chunk.len() - 8,
        map_chunk_type(chunk) matches Some(t) && t != MapChunkType::CompressedMap32Bit,
    ensures
        map_decode(header + chunk + rest, strict) == map_decode(header + rest, strict),
{
    let with = header + chunk + rest;
    let without = header + rest;
    assert(with.subrange(0, 4) =~= without.subrange(0, 4));
    assert(with[4] == without[4] && with[5] == without[5]);
    assert(with.subrange(6, with.len() as int) =~= chunk + rest);
    assert(without.subrange(6, without.len() as int) =~= rest);
    lemma_skipped_map_chunk_is_passed_over(chunk, rest, None);
}

} // verus!
