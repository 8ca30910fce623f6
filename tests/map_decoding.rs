use gta2_viewer::block::{read_block_info, BlockInfo, Position, SlopeType};
use gta2_viewer::chunk::{ChunkBuilderError, ParseError};
use gta2_viewer::map::{
    create_uncompressed_map_from_compressed, load_compressed_map_32, load_uncompressed_map,
    CompressedMap32, MapBuilder, MapChunkType, MapFile, UncompressedMap,
};

fn block(tile: u16, slope_byte: u8) -> BlockInfo {
    let mut bytes = Vec::new();
    for _ in 0..5 {
        bytes.extend_from_slice(&tile.to_le_bytes());
    }
    bytes.push(0);
    bytes.push(slope_byte);
    read_block_info(&bytes, 0)
}

fn block_bytes(tile: u16, slope_byte: u8) -> Vec<u8> {
    let mut bytes = Vec::new();
    for _ in 0..5 {
        bytes.extend_from_slice(&tile.to_le_bytes());
    }
    bytes.push(0);
    bytes.push(slope_byte);
    bytes
}

/// A map whose column (x, y) holds `stored` from level `offset` up to
/// `height`, every other column being empty.
fn one_column_map(x: usize, y: usize, height: u32, offset: u32, stored: &[u32]) -> CompressedMap32 {
    let mut base = vec![0u32; 65536];
    base[y * 256 + x] = 1;
    let mut column_infos = vec![0u32, height | (offset << 8)];
    column_infos.extend_from_slice(stored);
    CompressedMap32 {
        base,
        column_infos,
        block_infos: vec![block(0, 0), block(11, 0), block(22, 63 * 4)],
    }
}

fn dmap_payload(compressed: &CompressedMap32, blocks: &[Vec<u8>]) -> Vec<u8> {
    let mut p = Vec::new();
    for b in &compressed.base {
        p.extend_from_slice(&b.to_le_bytes());
    }
    p.extend_from_slice(&(compressed.column_infos.len() as u32).to_le_bytes());
    for c in &compressed.column_infos {
        p.extend_from_slice(&c.to_le_bytes());
    }
    p.extend_from_slice(&(blocks.len() as u32).to_le_bytes());
    for b in blocks {
        p.extend_from_slice(b);
    }
    p
}

fn chunk(tag: &[u8; 4], payload: &[u8]) -> Vec<u8> {
    let mut c = tag.to_vec();
    c.extend_from_slice(&(payload.len() as u32).to_le_bytes());
    c.extend_from_slice(payload);
    c
}

fn header() -> Vec<u8> {
    let mut h = b"GBMP".to_vec();
    h.extend_from_slice(&500u16.to_le_bytes());
    h
}

fn sample_dmap() -> Vec<u8> {
    let c = one_column_map(3, 5, 2, 0, &[1, 2]);
    dmap_payload(&c, &[block_bytes(0, 0), block_bytes(11, 0), block_bytes(22, 63 * 4)])
}

#[test]
fn flat_columns_expand_to_the_first_block() {
    let c = CompressedMap32 {
        base: vec![0u32; 65536],
        column_infos: vec![0x0500],
        block_infos: vec![block(9, 0), block(10, 0)],
    };
    let m = create_uncompressed_map_from_compressed(&c);
    assert_eq!(m.0.len(), 256 * 256 * 8);
    assert!(m.0.iter().all(|b| *b == block(9, 0)));
}

#[test]
fn one_populated_column_is_placed_at_its_levels() {
    let c = one_column_map(3, 5, 2, 0, &[1, 2]);
    let m = create_uncompressed_map_from_compressed(&c);
    assert_eq!(m.0.len(), 256 * 256 * 8);
    let xy = 5 * 256 + 3;
    for (i, b) in m.0.iter().enumerate() {
        if i == xy {
            assert_eq!(*b, block(11, 0));
        } else if i == xy + 65536 {
            assert_eq!(*b, block(22, 63 * 4));
        } else {
            assert_eq!(*b, block(0, 0), "cell {}", i);
        }
    }
    assert_eq!(m.block_at(Position { x: 3, y: 5, z: 1 }).slope_type, SlopeType::SlopeAbove);
    assert_eq!(*m.block_at(Position { x: 5, y: 3, z: 0 }), block(0, 0));
}

#[test]
fn offset_leaves_lower_levels_as_air() {
    // height 4, stored from level 2: levels 2 and 3 take the two stored blocks
    let c = one_column_map(0, 0, 4, 2, &[2, 1]);
    let m = create_uncompressed_map_from_compressed(&c);
    assert_eq!(m.0[0], block(0, 0));
    assert_eq!(m.0[65536], block(0, 0));
    assert_eq!(m.0[2 * 65536], block(22, 63 * 4));
    assert_eq!(m.0[3 * 65536], block(11, 0));
    assert_eq!(m.0[4 * 65536], block(0, 0));
}

#[test]
fn levels_above_the_volume_are_dropped() {
    // height 10: levels 8 and 9 have no cell in the volume
    let stored: Vec<u32> = (0..10).map(|z| if z % 2 == 0 { 1 } else { 2 }).collect();
    let c = one_column_map(255, 255, 10, 0, &stored);
    let m = create_uncompressed_map_from_compressed(&c);
    assert_eq!(m.0.len(), 256 * 256 * 8);
    for z in 0..8 {
        let expected = if z % 2 == 0 { block(11, 0) } else { block(22, 63 * 4) };
        assert_eq!(m.0[65535 + z * 65536], expected);
    }
}

#[test]
fn expandability_is_checked() {
    assert!(one_column_map(1, 1, 2, 0, &[1, 2]).is_expandable());
    // a stored level whose slot is past the end of column_infos
    assert!(!one_column_map(1, 1, 3, 0, &[1, 2]).is_expandable());
    // a slot naming a block that does not exist
    assert!(!one_column_map(1, 1, 2, 0, &[1, 7]).is_expandable());
    let mut c = one_column_map(1, 1, 2, 0, &[1, 2]);
    c.base[7] = 99;
    assert!(!c.is_expandable());
    let mut c = one_column_map(1, 1, 2, 0, &[1, 2]);
    c.block_infos.clear();
    assert!(!c.is_expandable());
}

#[test]
fn dmap_payload_round_trips() {
    let c = one_column_map(3, 5, 2, 0, &[1, 2]);
    let mut payload = sample_dmap();
    let len = payload.len();
    payload.extend_from_slice(&[1, 2, 3]);
    let (m, used) = match load_compressed_map_32(&payload) {
        Ok(r) => r,
        Err(e) => panic!("{:?}", e),
    };
    assert_eq!(used, len);
    assert_eq!(m.base, c.base);
    assert_eq!(m.column_infos, c.column_infos);
    assert_eq!(m.block_infos, c.block_infos);
}

#[test]
fn short_dmap_payload_is_truncated() {
    let payload = sample_dmap();
    for cut in [0usize, 100, 262147, 262150, payload.len() - 1] {
        assert!(matches!(load_compressed_map_32(&payload[..cut]), Err(ParseError::Truncated)));
    }
}

#[test]
fn map_file_decodes_through_dmap() {
    let mut file = header();
    file.extend(chunk(b"DMAP", &sample_dmap()));
    let map = MapFile::from_bytes(file).unwrap();
    let dense = map.uncompressed_map.unwrap();
    assert_eq!(dense.0.len(), 524288);
    assert_eq!(dense.0[5 * 256 + 3], block(11, 0));
    assert_eq!(dense.0[5 * 256 + 3 + 65536], block(22, 63 * 4));
    assert_eq!(dense.0[0], block(0, 0));
    assert_eq!(map.compressed_map_32bit.column_infos, vec![0, 2, 1, 2]);
}

#[test]
fn skipped_map_chunk_changes_nothing() {
    let mut plain = header();
    plain.extend(chunk(b"DMAP", &sample_dmap()));
    let mut with_zone = header();
    with_zone.extend(chunk(b"ZONE", &[7u8; 37]));
    with_zone.extend(chunk(b"DMAP", &sample_dmap()));
    let a = MapFile::from_bytes(plain).unwrap();
    let b = MapFile::from_bytes(with_zone).unwrap();
    assert_eq!(a.compressed_map_32bit.base, b.compressed_map_32bit.base);
    assert_eq!(a.compressed_map_32bit.column_infos, b.compressed_map_32bit.column_infos);
    assert_eq!(a.compressed_map_32bit.block_infos, b.compressed_map_32bit.block_infos);
    assert_eq!(a.uncompressed_map.unwrap().0, b.uncompressed_map.unwrap().0);
}

#[test]
fn map_without_dmap_is_incomplete() {
    let mut file = header();
    file.extend(chunk(b"ANIM", &[1, 2, 3, 4]));
    assert!(matches!(
        MapFile::from_bytes(file),
        Err(ParseError::Incomplete(ChunkBuilderError::MissingCompressedMapChunk))
    ));
}

#[test]
fn unknown_tag_ends_the_chunks() {
    let mut file = header();
    file.extend(chunk(b"DMAP", &sample_dmap()));
    file.extend(chunk(b"XXXX", &[0u8; 3]));
    file.extend(chunk(b"ZONE", &[0u8; 3]));
    assert!(MapFile::from_bytes(file.clone()).is_ok());
    assert!(matches!(MapFile::from_bytes_strict(file), Err(ParseError::UnknownChunkType)));

    let mut stops_early = header();
    stops_early.extend(chunk(b"XXXX", &[0u8; 3]));
    stops_early.extend(chunk(b"DMAP", &sample_dmap()));
    assert!(matches!(
        MapFile::from_bytes(stops_early),
        Err(ParseError::Incomplete(ChunkBuilderError::MissingCompressedMapChunk))
    ));
}

#[test]
fn clean_end_is_accepted_strictly() {
    let mut file = header();
    file.extend(chunk(b"DMAP", &sample_dmap()));
    file.extend_from_slice(&[0, 0, 0]);
    assert!(MapFile::from_bytes_strict(file).is_ok());
}

#[test]
fn map_errors() {
    assert!(matches!(MapFile::from_bytes(b"GBM".to_vec()), Err(ParseError::Truncated)));
    assert!(matches!(
        MapFile::from_bytes(vec![0xff, 0xfe, 0x41, 0x41, 1, 0]),
        Err(ParseError::InvalidFileType)
    ));
    let mut half_head = header();
    half_head.extend_from_slice(b"DMAP\x01");
    assert!(matches!(MapFile::from_bytes(half_head), Err(ParseError::Truncated)));
    let mut short = header();
    short.extend(chunk(b"DMAP", &sample_dmap()[..1000]));
    assert!(matches!(MapFile::from_bytes(short), Err(ParseError::Truncated)));
    let bad = one_column_map(3, 5, 3, 0, &[1, 2]);
    let mut out_of_range = header();
    out_of_range.extend(chunk(
        b"DMAP",
        &dmap_payload(&bad, &[block_bytes(0, 0), block_bytes(11, 0), block_bytes(22, 0)]),
    ));
    assert!(matches!(MapFile::from_bytes(out_of_range), Err(ParseError::ColumnOutOfRange)));
}

#[test]
fn builder_and_chunk_types() {
    assert_eq!(MapChunkType::from_tag(b"DMAP"), Some(MapChunkType::CompressedMap32Bit));
    assert_eq!(MapChunkType::from_tag(b"UMAP"), Some(MapChunkType::UncompressedMap));
    assert_eq!(MapChunkType::from_tag(b"RGEN"), Some(MapChunkType::JunctionList));
    assert_eq!(MapChunkType::from_tag(b"DMAQ"), None);
    let mut builder = MapBuilder::new();
    assert!(builder.compressed_map_32.is_none());
    assert_eq!(builder.load_chunk(MapChunkType::Lights, 40, &[]), Ok(40));
    let payload = sample_dmap();
    assert_eq!(builder.load_chunk(MapChunkType::CompressedMap32Bit, 0, &payload), Ok(payload.len()));
    let map = builder.build().unwrap();
    assert_eq!(map.uncompressed_map.unwrap().0[5 * 256 + 3], block(11, 0));
    assert!(matches!(
        MapBuilder::new().build(),
        Err(ParseError::Incomplete(ChunkBuilderError::MissingCompressedMapChunk))
    ));
}

#[test]
fn uncompressed_map_payload() {
    assert_eq!(UncompressedMap::new().0.len(), 0);
    let mut payload = Vec::with_capacity(524288 * 12);
    for i in 0..524288u32 {
        payload.extend(block_bytes((i % 1024) as u16, 0));
    }
    let m = load_uncompressed_map(&payload).unwrap();
    assert_eq!(m.0.len(), 524288);
    assert_eq!(m.0[1500], block(1500 % 1024, 0));
    assert!(matches!(load_uncompressed_map(&payload[..100]), Err(ParseError::Truncated)));
}
