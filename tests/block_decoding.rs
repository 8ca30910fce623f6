use gta2_viewer::block::{
    read_block_info, rotation_quarter_turns, BlockInfo, DiagonalType, LidFace, NormalFace, PartialPosition, Rotate,
    SlopeDirection, SlopeLevel, SlopeType,
};

fn rotate_for(bits: u16) -> Rotate {
    match bits {
        0 => Rotate::Degree0,
        1 => Rotate::Degree90,
        2 => Rotate::Degree180,
        _ => Rotate::Degree270,
    }
}

#[test]
fn face_words_decode_bit_by_bit() {
    for w in 0..=u16::MAX {
        let face = NormalFace::from(w);
        assert_eq!(face.tile_id, (w & 0x3ff) as usize);
        assert_eq!(face.flat, (w >> 12) & 1 == 1);
        assert_eq!(face.flip, (w >> 13) & 1 == 1);
        assert_eq!(face.rotate, rotate_for(w >> 14));
        let lid = LidFace::from(w);
        assert_eq!(lid.tile_id, face.tile_id);
        assert_eq!(lid.flat, face.flat);
        assert_eq!(lid.flip, face.flip);
        assert_eq!(lid.rotate, face.rotate);
    }
}

#[test]
fn face_word_example() {
    // tile 0x155, bits 10 and 11 set (ignored), flat, not flipped, 270 degrees
    let face = NormalFace::from(0b1101_1101_0101_0101);
    assert_eq!(face.tile_id, 0x155);
    assert!(face.flat);
    assert!(!face.flip);
    assert_eq!(face.rotate, Rotate::Degree270);
    let face = NormalFace::from(0b0110_0000_0000_0111);
    assert_eq!(face.tile_id, 7);
    assert!(!face.flat);
    assert!(face.flip);
    assert_eq!(face.rotate, Rotate::Degree90);
}

#[test]
fn rotate_takes_the_two_low_bits() {
    assert_eq!(Rotate::from(0u8), Rotate::Degree0);
    assert_eq!(Rotate::from(1u8), Rotate::Degree90);
    assert_eq!(Rotate::from(2u8), Rotate::Degree180);
    assert_eq!(Rotate::from(3u8), Rotate::Degree270);
    assert_eq!(Rotate::from(6u8), Rotate::Degree180);
    assert_eq!(Rotate::Degree0.clockwise_quarter_turns(), 0);
    assert_eq!(Rotate::Degree90.clockwise_quarter_turns(), 1);
    assert_eq!(Rotate::Degree180.clockwise_quarter_turns(), 2);
    assert_eq!(Rotate::Degree270.clockwise_quarter_turns(), 3);
}

fn expected_slope(id: u8) -> SlopeType {
    let dirs = [
        SlopeDirection::Up,
        SlopeDirection::Down,
        SlopeDirection::Left,
        SlopeDirection::Right,
    ];
    let corners = [
        DiagonalType::UpLeft,
        DiagonalType::UpRight,
        DiagonalType::DownLeft,
        DiagonalType::DownRight,
    ];
    let sides = [
        PartialPosition::Left,
        PartialPosition::Right,
        PartialPosition::Top,
        PartialPosition::Bottom,
    ];
    match id {
        0 => SlopeType::NoSlope,
        1..=8 => SlopeType::Degree26 {
            direction: dirs[((id - 1) / 2) as usize],
            level: if (id - 1) % 2 == 0 { SlopeLevel::Low } else { SlopeLevel::High },
        },
        41..=44 => SlopeType::Degree45(dirs[(id - 41) as usize]),
        45..=48 => SlopeType::Diagonal(corners[(id - 45) as usize]),
        49..=52 => SlopeType::ThreeSidedDiagonal(corners[(id - 49) as usize]),
        53..=56 => SlopeType::PartialBlock(sides[(id - 53) as usize]),
        63 => SlopeType::SlopeAbove,
        _ => SlopeType::Ignore,
    }
}

#[test]
fn every_slope_byte_decodes_by_the_table() {
    for b in 0..=u8::MAX {
        assert_eq!(SlopeType::from(b), expected_slope(b >> 2), "slope byte {}", b);
    }
}

#[test]
fn slope_table_examples() {
    assert_eq!(SlopeType::from(0), SlopeType::NoSlope);
    assert_eq!(SlopeType::from(3), SlopeType::NoSlope);
    assert_eq!(
        SlopeType::from(4),
        SlopeType::Degree26 { direction: SlopeDirection::Up, level: SlopeLevel::Low }
    );
    assert_eq!(
        SlopeType::from(8 * 4 + 1),
        SlopeType::Degree26 { direction: SlopeDirection::Right, level: SlopeLevel::High }
    );
    assert_eq!(SlopeType::from(9 * 4), SlopeType::Ignore);
    assert_eq!(SlopeType::from(40 * 4), SlopeType::Ignore);
    assert_eq!(SlopeType::from(42 * 4 + 3), SlopeType::Degree45(SlopeDirection::Down));
    assert_eq!(SlopeType::from(46 * 4), SlopeType::Diagonal(DiagonalType::UpRight));
    assert_eq!(SlopeType::from(52 * 4), SlopeType::ThreeSidedDiagonal(DiagonalType::DownRight));
    assert_eq!(SlopeType::from(55 * 4), SlopeType::PartialBlock(PartialPosition::Top));
    assert_eq!(SlopeType::from(57 * 4), SlopeType::Ignore);
    assert_eq!(SlopeType::from(62 * 4), SlopeType::Ignore);
    assert_eq!(SlopeType::from(63 * 4 + 2), SlopeType::SlopeAbove);
}

#[test]
fn block_record_is_five_words_then_arrows_then_slope() {
    let bytes: Vec<u8> = vec![
        0x01, 0x00, // left: tile 1
        0x02, 0x10, // right: tile 2, flat
        0x03, 0x20, // top: tile 3, flip
        0x04, 0x40, // bottom: tile 4, 90 degrees
        0xff, 0xc3, // lid: tile 1023, 270 degrees
        0x5a, // arrows
        45 * 4, // slope: diagonal up-left
    ];
    let block: BlockInfo = read_block_info(&bytes, 0);
    assert_eq!(block.left, NormalFace::from(0x0001));
    assert_eq!(block.right.tile_id, 2);
    assert!(block.right.flat);
    assert_eq!(block.top.tile_id, 3);
    assert!(block.top.flip);
    assert_eq!(block.bottom.tile_id, 4);
    assert_eq!(block.bottom.rotate, Rotate::Degree90);
    assert_eq!(block.lid.tile_id, 1023);
    assert_eq!(block.lid.rotate, Rotate::Degree270);
    assert_eq!(block.arrows, 0x5a);
    assert_eq!(block.slope_type, SlopeType::Diagonal(DiagonalType::UpLeft));
}

#[test]
fn flipped_textures_turn_the_other_way() {
    assert_eq!(rotation_quarter_turns(Rotate::Degree0, false), 0);
    assert_eq!(rotation_quarter_turns(Rotate::Degree90, false), 1);
    assert_eq!(rotation_quarter_turns(Rotate::Degree270, false), 3);
    assert_eq!(rotation_quarter_turns(Rotate::Degree0, true), 0);
    assert_eq!(rotation_quarter_turns(Rotate::Degree90, true), 3);
    assert_eq!(rotation_quarter_turns(Rotate::Degree180, true), 2);
    assert_eq!(rotation_quarter_turns(Rotate::Degree270, true), 1);
}
