use build_assets::art::{ArtError, ArtFileReader, ArtTile};

/// Builds catalog bytes: version, reserved word, the id range, then the
/// width run followed by the height run.
fn make_art(version: u32, first_id: u32, last_id: u32, widths: &[i16], heights: &[i16]) -> Vec<u8> {
    let mut data = Vec::new();
    data.extend_from_slice(&version.to_le_bytes());
    data.extend_from_slice(&0u32.to_le_bytes());
    data.extend_from_slice(&first_id.to_le_bytes());
    data.extend_from_slice(&last_id.to_le_bytes());
    for w in widths {
        data.extend_from_slice(&w.to_le_bytes());
    }
    for h in heights {
        data.extend_from_slice(&h.to_le_bytes());
    }
    data
}

#[test]
fn scenario_three_tiles() {
    let data = make_art(1, 100, 102, &[10, 20, 30], &[5, 15, 25]);
    let reader = ArtFileReader::new(data).unwrap();
    let tiles = reader.read_tiles().unwrap();
    assert_eq!(
        tiles,
        vec![
            ArtTile { number: 100, width: 10, height: 5 },
            ArtTile { number: 101, width: 20, height: 15 },
            ArtTile { number: 102, width: 30, height: 25 },
        ]
    );
}

#[test]
fn tile_ids_count_up_from_first_id() {
    let data = make_art(1, 7, 10, &[1, 2, 3, 4], &[9, 8, 7, 6]);
    let reader = ArtFileReader::new(data).unwrap();
    let tiles = reader.read_tiles().unwrap();
    assert_eq!(tiles.len(), 10 - 7 + 1);
    for (k, tile) in tiles.iter().enumerate() {
        assert_eq!(tile.number, 7 + k as u32);
    }
}

#[test]
fn dimensions_keep_raw_signed_values() {
    let data = make_art(1, 0, 1, &[-4, 0], &[0, -32768]);
    let reader = ArtFileReader::new(data).unwrap();
    let tiles = reader.read_tiles().unwrap();
    assert_eq!(tiles[0].width, -4);
    assert_eq!(tiles[0].height, 0);
    assert_eq!(tiles[1].width, 0);
    assert_eq!(tiles[1].height, -32768);
}

#[test]
fn unsupported_version_fails_before_range_header() {
    // Only the 4-byte version field is present: the version check cannot
    // have read past it.
    let data = 2u32.to_le_bytes().to_vec();
    assert_eq!(
        ArtFileReader::new(data).unwrap_err(),
        ArtError::UnsupportedVersion { found: 2 }
    );
}

#[test]
fn short_version_field_is_truncated_header() {
    let data = vec![1u8, 0];
    assert_eq!(ArtFileReader::new(data).unwrap_err(), ArtError::TruncatedHeader);
}

#[test]
fn short_range_header_is_truncated_range() {
    let data = make_art(1, 3, 3, &[], &[]);
    let reader = ArtFileReader::new(data[..12].to_vec()).unwrap();
    assert_eq!(reader.read_tiles().unwrap_err(), ArtError::TruncatedRange);
}

#[test]
fn inverted_range_fails_deterministically() {
    let data = make_art(1, 5, 3, &[], &[]);
    let reader = ArtFileReader::new(data).unwrap();
    assert_eq!(reader.read_tiles().unwrap_err(), ArtError::InvalidTileRange);
}

#[test]
fn inverted_extreme_range_fails_deterministically() {
    let data = make_art(1, u32::MAX, 0, &[], &[]);
    let reader = ArtFileReader::new(data).unwrap();
    assert_eq!(reader.read_tiles().unwrap_err(), ArtError::InvalidTileRange);
}

#[test]
fn short_dimension_runs_are_truncated_record() {
    // Three tiles declared, but the height run is one value short.
    let data = make_art(1, 100, 102, &[10, 20, 30], &[5, 15]);
    let reader = ArtFileReader::new(data).unwrap();
    assert_eq!(reader.read_tiles().unwrap_err(), ArtError::TruncatedRecord);
}

#[test]
fn repeated_reads_decode_afresh() {
    let data = make_art(1, 0, 0, &[64], &[128]);
    let reader = ArtFileReader::new(data).unwrap();
    let once = reader.read_tiles().unwrap();
    let again = reader.read_tiles().unwrap();
    assert_eq!(once, again);
    assert_eq!(once, vec![ArtTile { number: 0, width: 64, height: 128 }]);
}

#[test]
fn art_error_messages_are_single_line_causes() {
    assert_eq!(ArtError::TruncatedHeader.message(), "truncated header");
    assert_eq!(
        ArtError::UnsupportedVersion { found: 9 }.message(),
        "unsupported version, expected 1"
    );
    assert_eq!(ArtError::TruncatedRange.message(), "truncated range header");
    assert_eq!(ArtError::InvalidTileRange.message(), "invalid tile range");
    assert_eq!(ArtError::TruncatedRecord.message(), "truncated tile record");
}
