//! One cell of the map volume: five textured faces, an arrow mask and a slope,
//! and the bit-level decoding of each from the file's packed words.
use crate::bytes::{le_u16, read_u16_le};
use vstd::prelude::*;

verus! {

/// A cell of the 256 x 256 x 8 map volume.
#[derive(Debug, Clone, Copy, PartialEq, Eq, Structural)]
pub struct Position {
    pub x: u8,
    pub y: u8,
    pub z: u8,
}

/// Quarter turns that a face texture is rotated by, clockwise.
#[derive(Debug, Clone, Copy, PartialEq, Eq, Structural)]
pub enum Rotate {
    Degree0,
    Degree90,
    Degree180,
    Degree270,
}

/// The rotation that the two low bits of `bits` select: 0, 1, 2, 3 quarter turns.
pub open spec fn rotate_of(bits: u8) -> Rotate {
    if bits % 4 == 0 {
        Rotate::Degree0
    } else if bits % 4 == 1 {
        Rotate::Degree90
    } else if bits % 4 == 2 {
        Rotate::Degree180
    } else {
        Rotate::Degree270
    }
}

impl Rotate {
    /// The number of clockwise quarter turns, 0 to 3.
    pub open spec fn quarter_turns(self) -> u8 {
        match self {
            Rotate::Degree0 => 0,
            Rotate::Degree90 => 1,
            Rotate::Degree180 => 2,
            Rotate::Degree270 => 3,
        }
    }

    /// The number of clockwise quarter turns, 0 to 3; an angle is this times a
    /// quarter of a full turn.
    pub fn clockwise_quarter_turns(&self) -> (r: u8)
        ensures
            r == self.quarter_turns(),
            r < 4,
    {
        match self {
            Rotate::Degree0 => 0,
            Rotate::Degree90 => 1,
            Rotate::Degree180 => 2,
            Rotate::Degree270 => 3,
        }
    }
}

/// The clockwise quarter turns that a face texture is drawn with: its own
/// rotation, counted the other way round where the texture is flipped.
pub fn rotation_quarter_turns(rotate: Rotate, flip: bool) -> (r: u8)
    ensures
        r == if flip {
            (4 - rotate.quarter_turns()) % 4
        } else {
            rotate.quarter_turns() as int
        },
{
    let q = rotate.clockwise_quarter_turns();
    if flip {
        (4 - q) % 4
    } else {
        q
    }
}

impl From<u8> for Rotate {
    /// The two low bits of `value` select the quarter turns; the others are ignored.
    fn from(value: u8) -> (r: Rotate) {
        assert(value & 3 == value % 4) by (bit_vector);
        match value & 3 {
            0 => Rotate::Degree0,
            1 => Rotate::Degree90,
            2 => Rotate::Degree180,
            _ => Rotate::Degree270,
        }
    }
}

impl vstd::std_specs::convert::FromSpecImpl<u8> for Rotate {
    open spec fn obeys_from_spec() -> bool {
        true
    }

    open spec fn from_spec(v: u8) -> Rotate {
        rotate_of(v)
    }
}


/// Tile id in bits 0 to 9 of a face word (0 means the face is not drawn);
/// bits 10 and 11 are not used.
pub open spec fn face_tile_id(w: u16) -> usize {
    (w % 1024) as usize
}

/// Bit 12 of a face word.
pub open spec fn face_flat(w: u16) -> bool {
    (w / 4096) % 2 == 1
}

/// Bit 13 of a face word.
pub open spec fn face_flip(w: u16) -> bool {
    (w / 8192) % 2 == 1
}

/// Bits 14 and 15 of a face word, as a rotation.
pub open spec fn face_rotate(w: u16) -> Rotate {
    rotate_of((w / 16384) as u8)
}

/// The fields of a face word, cut out with masks and shifts.
proof fn lemma_face_bits(w: u16)
    ensures
        w & 0x3ff == w % 1024,
        ((w >> 12u16) & 1 == 1) == ((w / 4096) % 2 == 1),
        ((w >> 13u16) & 1 == 1) == ((w / 8192) % 2 == 1),
        w >> 14u16 == w / 16384,
        w >> 14u16 < 4,
{
    assert(w & 0x3ff == w % 1024) by (bit_vector);
    assert(((w >> 12u16) & 1 == 1) == ((w / 4096) % 2 == 1)) by (bit_vector);
    assert(((w >> 13u16) & 1 == 1) == ((w / 8192) % 2 == 1)) by (bit_vector);
    assert(w >> 14u16 == w / 16384) by (bit_vector);
    assert(w >> 14u16 < 4) by (bit_vector);
}

/// Every face word decodes bit by bit: the tile id is `word & 0x3ff`, flat is
/// bit 12, flip is bit 13, and bits 14 and 15 give the quarter turns; side
/// faces and lids alike.
pub proof fn lemma_face_word_fields(w: u16)
    ensures
        normal_face_of(w).tile_id == (w & 0x3ff) as usize,
        normal_face_of(w).flat == ((w >> 12u16) & 1 == 1),
        normal_face_of(w).flip == ((w >> 13u16) & 1 == 1),
        normal_face_of(w).rotate.quarter_turns() == (w >> 14u16) & 3,
        lid_face_of(w).tile_id == normal_face_of(w).tile_id,
        lid_face_of(w).flat == normal_face_of(w).flat,
        lid_face_of(w).flip == normal_face_of(w).flip,
        lid_face_of(w).rotate == normal_face_of(w).rotate,
{
    lemma_face_bits(w);
    assert((w >> 14u16) & 3 == w >> 14u16) by (bit_vector);
}

/// A side face (left, right, top or bottom) of a cell.
#[derive(Debug, Clone, Copy, PartialEq, Eq, Structural)]
pub struct NormalFace {
    pub tile_id: usize,
    pub flat: bool,
    pub flip: bool,
    pub rotate: Rotate,
}

/// The lid (upper face) of a cell; its bits are laid out as a side face's.
#[derive(Debug, Clone, Copy, PartialEq, Eq, Structural)]
pub struct LidFace {
    pub tile_id: usize,
    pub flat: bool,
    pub flip: bool,
    pub rotate: Rotate,
}

/// The side face that a 16-bit face word describes.
pub open spec fn normal_face_of(w: u16) -> NormalFace {
    NormalFace {
        tile_id: face_tile_id(w),
        flat: face_flat(w),
        flip: face_flip(w),
        rotate: face_rotate(w),
    }
}

/// The lid face that a 16-bit face word describes.
pub open spec fn lid_face_of(w: u16) -> LidFace {
    LidFace {
        tile_id: face_tile_id(w),
        flat: face_flat(w),
        flip: face_flip(w),
        rotate: face_rotate(w),
    }
}

impl From<u16> for NormalFace {
    fn from(value: u16) -> (r: NormalFace) {
        proof {
            lemma_face_bits(value);
        }
        let tile_id = (value & 0x3ff) as usize;
        let flat = ((value >> 12u16) & 1) == 1;
        let flip = ((value >> 13u16) & 1) == 1;
        let rotate = Rotate::from((value >> 14u16) as u8);
        NormalFace { tile_id, flat, flip, rotate }
    }
}

impl vstd::std_specs::convert::FromSpecImpl<u16> for NormalFace {
    open spec fn obeys_from_spec() -> bool {
        true
    }

    open spec fn from_spec(v: u16) -> NormalFace {
        normal_face_of(v)
    }
}

impl From<u16> for LidFace {
    fn from(value: u16) -> (r: LidFace) {
        proof {
            lemma_face_bits(value);
        }
        let tile_id = (value & 0x3ff) as usize;
        let flat = ((value >> 12u16) & 1) == 1;
        let flip = ((value >> 13u16) & 1) == 1;
        let rotate = Rotate::from((value >> 14u16) as u8);
        LidFace { tile_id, flat, flip, rotate }
    }
}

impl vstd::std_specs::convert::FromSpecImpl<u16> for LidFace {
    open spec fn obeys_from_spec() -> bool {
        true
    }

    open spec fn from_spec(v: u16) -> LidFace {
        lid_face_of(v)
    }
}


/// Which way a ramp rises.
#[derive(Debug, Clone, Copy, PartialEq, Eq, Structural)]
pub enum SlopeDirection {
    Up,
    Down,
    Left,
    Right,
}

/// The lower or upper half of a two-cell ramp.
#[derive(Debug, Clone, Copy, PartialEq, Eq, Structural)]
pub enum SlopeLevel {
    Low,
    High,
}

/// The corner that a diagonal wall cuts off.
#[derive(Debug, Clone, Copy, PartialEq, Eq, Structural)]
pub enum DiagonalType {
    UpLeft,
    UpRight,
    DownLeft,
    DownRight,
}

/// The side of a cell that a partial block fills.
#[derive(Debug, Clone, Copy, PartialEq, Eq, Structural)]
pub enum PartialPosition {
    Left,
    Right,
    Top,
    Bottom,
}

/// The shape of a cell that is not a plain cube.
#[derive(Debug, Clone, Copy, PartialEq, Eq, Structural)]
pub enum SlopeType {
    /// A plain cube.
    NoSlope,
    Degree26 { direction: SlopeDirection, level: SlopeLevel },
    Degree45(SlopeDirection),
    Diagonal(DiagonalType),
    ThreeSidedDiagonal(DiagonalType),
    PartialBlock(PartialPosition),
    /// The visible surface of this cell is given by the cell above it.
    SlopeAbove,
    /// A code that has no shape of its own; kept apart from `None` so that it can be reported.
    Ignore,
}

/// The slope that a slope byte encodes: its top six bits select an entry of
/// the format's fixed table, and codes outside the table are `Ignore`.
pub open spec fn slope_of(b: u8) -> SlopeType {
    match b / 4 {
        0 => SlopeType::NoSlope,
        1 => SlopeType::Degree26 { direction: SlopeDirection::Up, level: SlopeLevel::Low },
        2 => SlopeType::Degree26 { direction: SlopeDirection::Up, level: SlopeLevel::High },
        3 => SlopeType::Degree26 { direction: SlopeDirection::Down, level: SlopeLevel::Low },
        4 => SlopeType::Degree26 { direction: SlopeDirection::Down, level: SlopeLevel::High },
        5 => SlopeType::Degree26 { direction: SlopeDirection::Left, level: SlopeLevel::Low },
        6 => SlopeType::Degree26 { direction: SlopeDirection::Left, level: SlopeLevel::High },
        7 => SlopeType::Degree26 { direction: SlopeDirection::Right, level: SlopeLevel::Low },
        8 => SlopeType::Degree26 { direction: SlopeDirection::Right, level: SlopeLevel::High },
        41 => SlopeType::Degree45(SlopeDirection::Up),
        42 => SlopeType::Degree45(SlopeDirection::Down),
        43 => SlopeType::Degree45(SlopeDirection::Left),
        44 => SlopeType::Degree45(SlopeDirection::Right),
        45 => SlopeType::Diagonal(DiagonalType::UpLeft),
        46 => SlopeType::Diagonal(DiagonalType::UpRight),
        47 => SlopeType::Diagonal(DiagonalType::DownLeft),
        48 => SlopeType::Diagonal(DiagonalType::DownRight),
        49 => SlopeType::ThreeSidedDiagonal(DiagonalType::UpLeft),
        50 => SlopeType::ThreeSidedDiagonal(DiagonalType::UpRight),
        51 => SlopeType::ThreeSidedDiagonal(DiagonalType::DownLeft),
        52 => SlopeType::ThreeSidedDiagonal(DiagonalType::DownRight),
        53 => SlopeType::PartialBlock(PartialPosition::Left),
        54 => SlopeType::PartialBlock(PartialPosition::Right),
        55 => SlopeType::PartialBlock(PartialPosition::Top),
        56 => SlopeType::PartialBlock(PartialPosition::Bottom),
        63 => SlopeType::SlopeAbove,
        _ => SlopeType::Ignore,
    }
}

impl From<u8> for SlopeType {
    fn from(value: u8) -> (r: SlopeType) {
        assert(value >> 2u8 == value / 4) by (bit_vector);
        let slope_type_id = value >> 2u8;
        match slope_type_id {
            0 => SlopeType::NoSlope,
            1 => SlopeType::Degree26 { direction: SlopeDirection::Up, level: SlopeLevel::Low },
            2 => SlopeType::Degree26 { direction: SlopeDirection::Up, level: SlopeLevel::High },
            3 => SlopeType::Degree26 { direction: SlopeDirection::Down, level: SlopeLevel::Low },
            4 => SlopeType::Degree26 { direction: SlopeDirection::Down, level: SlopeLevel::High },
            5 => SlopeType::Degree26 { direction: SlopeDirection::Left, level: SlopeLevel::Low },
            6 => SlopeType::Degree26 { direction: SlopeDirection::Left, level: SlopeLevel::High },
            7 => SlopeType::Degree26 { direction: SlopeDirection::Right, level: SlopeLevel::Low },
            8 => SlopeType::Degree26 { direction: SlopeDirection::Right, level: SlopeLevel::High },
            41 => SlopeType::Degree45(SlopeDirection::Up),
            42 => SlopeType::Degree45(SlopeDirection::Down),
            43 => SlopeType::Degree45(SlopeDirection::Left),
            44 => SlopeType::Degree45(SlopeDirection::Right),
            45 => SlopeType::Diagonal(DiagonalType::UpLeft),
            46 => SlopeType::Diagonal(DiagonalType::UpRight),
            47 => SlopeType::Diagonal(DiagonalType::DownLeft),
            48 => SlopeType::Diagonal(DiagonalType::DownRight),
            49 => SlopeType::ThreeSidedDiagonal(DiagonalType::UpLeft),
            50 => SlopeType::ThreeSidedDiagonal(DiagonalType::UpRight),
            51 => SlopeType::ThreeSidedDiagonal(DiagonalType::DownLeft),
            52 => SlopeType::ThreeSidedDiagonal(DiagonalType::DownRight),
            53 => SlopeType::PartialBlock(PartialPosition::Left),
            54 => SlopeType::PartialBlock(PartialPosition::Right),
            55 => SlopeType::PartialBlock(PartialPosition::Top),
            56 => SlopeType::PartialBlock(PartialPosition::Bottom),
            63 => SlopeType::SlopeAbove,
            _ => SlopeType::Ignore,
        }
    }
}

impl vstd::std_specs::convert::FromSpecImpl<u8> for SlopeType {
    open spec fn obeys_from_spec() -> bool {
        true
    }

    open spec fn from_spec(v: u8) -> SlopeType {
        slope_of(v)
    }
}

/// Everything the map stores about one cell.
#[derive(Debug, Clone, Copy, PartialEq, Eq, Structural)]
pub struct BlockInfo {
    pub left: NormalFace,
    pub right: NormalFace,
    pub top: NormalFace,
    pub bottom: NormalFace,
    pub lid: LidFace,
    /// Movement restrictions, a bit mask that this library does not interpret.
    pub arrows: u8,
    pub slope_type: SlopeType,
}

/// Size in bytes of a block record: five face words, the arrows byte and the slope byte.
pub const BLOCK_INFO_SIZE: usize = 12;

/// The block record stored at `s[i..i + 12]`.
pub open spec fn block_info_at(s: Seq<u8>, i: int) -> BlockInfo {
    BlockInfo {
        left: normal_face_of(le_u16(s, i)),
        right: normal_face_of(le_u16(s, i + 2)),
        top: normal_face_of(le_u16(s, i + 4)),
        bottom: normal_face_of(le_u16(s, i + 6)),
        lid: lid_face_of(le_u16(s, i + 8)),
        arrows: s[i + 10],
        slope_type: slope_of(s[i + 11]),
    }
}

/// Decodes the block record at `pos`.
pub fn read_block_info(bytes: &[u8], pos: usize) -> (r: BlockInfo)
    requires
        pos + BLOCK_INFO_SIZE <= bytes@.len(),
    ensures
        r == block_info_at(bytes@, pos as int),
{
    assert(pos + 12 <= bytes.len());
    BlockInfo {
        left: NormalFace::from(read_u16_le(bytes, pos)),
        right: NormalFace::from(read_u16_le(bytes, pos + 2)),
        top: NormalFace::from(read_u16_le(bytes, pos + 4)),
        bottom: NormalFace::from(read_u16_le(bytes, pos + 6)),
        lid: LidFace::from(read_u16_le(bytes, pos + 8)),
        arrows: bytes[pos + 10],
        slope_type: SlopeType::from(bytes[pos + 11]),
    }
}


/// The `n` block records stored one after another from `s[start]` on.
pub open spec fn block_infos_at(s: Seq<u8>, start: int, n: nat) -> Seq<BlockInfo> {
    Seq::new(n, |k: int| block_info_at(s, start + 12 * k))
}

/// Decodes `len` block records stored one after another from `start` on.
pub fn read_block_infos(bytes: &[u8], start: usize, len: usize) -> (r: Vec<BlockInfo>)
    requires
        start + 12 * len <= bytes@.len(),
    ensures
        r@ == block_infos_at(bytes@, start as int, len as nat),
{
    let n = bytes.len();
    let mut blocks: Vec<BlockInfo> = Vec::with_capacity(len);
    let mut k: usize = 0;
    while k < len
        invariant
            k <= len,
            n == bytes@.len(),
            start + 12 * len <= bytes@.len(),
            blocks@ == block_infos_at(bytes@, start as int, k as nat),
        decreases len - k,
    {
        blocks.push(read_block_info(bytes, start + 12 * k));
        k += 1;
        assert(blocks@ =~= block_infos_at(bytes@, start as int, k as nat));
    }
    blocks
}

} // verus!
