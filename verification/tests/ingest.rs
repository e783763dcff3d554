use tactical_mapper::format::{point_cloud_format, PointCloudFormat};
use tactical_mapper::pcd::parse_pcd_records;
use tactical_mapper::ply::parse_ply_records;
use tactical_mapper::records::RawPoint;
use tactical_mapper::velodyne::{decode_velodyne, PointBits, VelodyneError};

fn value(token: &Option<Vec<char>>) -> f32 {
    match token {
        Some(chars) => chars.iter().collect::<String>().parse::<f32>().unwrap_or(0.0),
        None => 0.0,
    }
}

fn text(token: &Option<Vec<char>>) -> Option<String> {
    token.as_ref().map(|chars| chars.iter().collect())
}

fn le_bytes(values: &[f32]) -> Vec<u8> {
    values.iter().flat_map(|value| value.to_le_bytes()).collect()
}

#[test]
fn velodyne_bin_parses_known_points() {
    let points = [1.0_f32, 2.0, 3.0, 0.5, 4.0, 5.0, 6.0, 0.9];
    let records = decode_velodyne(&le_bytes(&points)).unwrap();
    assert_eq!(records.len(), 2);
    let first = records[0];
    assert_eq!(
        (
            f32::from_bits(first.x),
            f32::from_bits(first.y),
            f32::from_bits(first.z),
            f32::from_bits(first.intensity)
        ),
        (1.0, 2.0, 3.0, 0.5)
    );
    let second = records[1];
    assert_eq!(
        (
            f32::from_bits(second.x),
            f32::from_bits(second.y),
            f32::from_bits(second.z),
            f32::from_bits(second.intensity)
        ),
        (4.0, 5.0, 6.0, 0.9)
    );
}

#[test]
fn velodyne_words_are_little_endian() {
    let bytes: Vec<u8> = (1u8..=16).collect();
    let records = decode_velodyne(&bytes).unwrap();
    assert_eq!(
        records,
        vec![PointBits { x: 0x04030201, y: 0x08070605, z: 0x0c0b0a09, intensity: 0x100f0e0d }]
    );
}

#[test]
fn velodyne_rejects_odd_byte_count() {
    assert_eq!(decode_velodyne(&[0u8; 6]), Err(VelodyneError::OddByteCount));
    assert_eq!(decode_velodyne(&[0u8; 17]), Err(VelodyneError::OddByteCount));
}

#[test]
fn velodyne_rejects_incomplete_record() {
    assert_eq!(decode_velodyne(&[0u8; 12]), Err(VelodyneError::IncompleteRecord));
    assert_eq!(decode_velodyne(&[0u8; 20]), Err(VelodyneError::IncompleteRecord));
}

#[test]
fn velodyne_empty_payload_has_no_points() {
    assert_eq!(decode_velodyne(&[]), Ok(Vec::new()));
}

#[test]
fn velodyne_round_trips_written_points() {
    let values = [-1.5_f32, 0.0, 1e-3, 7.25, 100.0, -0.0, 3.5, 0.125];
    let records = decode_velodyne(&le_bytes(&values)).unwrap();
    let mut written = Vec::new();
    for record in &records {
        for word in [record.x, record.y, record.z, record.intensity] {
            written.extend_from_slice(&word.to_le_bytes());
        }
    }
    assert_eq!(written, le_bytes(&values));
}

#[test]
fn pcd_ascii_parses_xyz() {
    let content = "VERSION .7\nFIELDS x y z intensity\nSIZE 4 4 4 4\nTYPE F F F F\nCOUNT 1 1 1 1\nWIDTH 2\nHEIGHT 1\nPOINTS 2\nDATA ascii\n1 2 3 0.25\n4 5 6 0.75\n";
    let points = parse_pcd_records(content);
    assert_eq!(points.len(), 2);
    assert_eq!(value(&points[0].x), 1.0);
    assert_eq!(value(&points[1].z), 6.0);
    assert_eq!(value(&points[0].intensity), 0.25);
}

#[test]
fn pcd_header_lines_before_data_are_not_points() {
    let content = "FIELDS x y z\nWIDTH 1 2 3\n1 2 3\nDATA ascii\n7 8 9\n";
    let points = parse_pcd_records(content);
    assert_eq!(points.len(), 1);
    assert_eq!(text(&points[0].x), Some("7".to_string()));
    assert_eq!(text(&points[0].intensity), None);
}

#[test]
fn pcd_short_lines_are_skipped() {
    let content = "FIELDS x y z\nDATA ascii\n1 2\n\n   \n3 4 5\n";
    let points = parse_pcd_records(content);
    assert_eq!(points.len(), 1);
    assert_eq!(text(&points[0].z), Some("5".to_string()));
}

#[test]
fn pcd_fields_follow_declared_order() {
    let content = "FIELDS intensity rgb z y x\nDATA ascii\n0.5 77 3 2 1\n";
    let points = parse_pcd_records(content);
    assert_eq!(
        points,
        vec![RawPoint {
            x: Some(vec!['1']),
            y: Some(vec!['2']),
            z: Some(vec!['3']),
            intensity: Some(vec!['0', '.', '5']),
        }]
    );
}

#[test]
fn pcd_values_beyond_fields_are_ignored_and_missing_values_stay_unset() {
    let content = "FIELDS x y z intensity\nDATA ascii\n1 2 3\n4 5 6 0.5 9 9\n";
    let points = parse_pcd_records(content);
    assert_eq!(points.len(), 2);
    assert_eq!(text(&points[0].intensity), None);
    assert_eq!(text(&points[1].intensity), Some("0.5".to_string()));
}

#[test]
fn pcd_repeated_field_takes_the_last_value() {
    let content = "FIELDS x x y z\nDATA ascii\n1 2 3 4\n";
    let points = parse_pcd_records(content);
    assert_eq!(text(&points[0].x), Some("2".to_string()));
    assert_eq!(text(&points[0].y), Some("3".to_string()));
}

#[test]
fn pcd_handles_crlf_and_unicode_whitespace() {
    let content = "FIELDS x y z\r\nDATA ascii\r\n\u{a0}1\u{3000}2\t3\u{85}\r\n";
    let points = parse_pcd_records(content);
    assert_eq!(points.len(), 1);
    assert_eq!(value(&points[0].x), 1.0);
    assert_eq!(value(&points[0].y), 2.0);
    assert_eq!(value(&points[0].z), 3.0);
}

#[test]
fn pcd_unparsable_tokens_are_kept_as_text() {
    let content = "FIELDS x y z\nDATA ascii\nnan? 2 3\n";
    let points = parse_pcd_records(content);
    assert_eq!(text(&points[0].x), Some("nan?".to_string()));
    assert_eq!(value(&points[0].x), 0.0);
}

#[test]
fn pcd_without_fields_gives_unset_coordinates() {
    let content = "DATA ascii\n1 2 3\n";
    let points = parse_pcd_records(content);
    assert_eq!(points, vec![RawPoint { x: None, y: None, z: None, intensity: None }]);
}

#[test]
fn ply_ascii_parses_vertices() {
    let content = "ply\nformat ascii 1.0\nelement vertex 2\nproperty float x\nproperty float y\nproperty float z\nproperty float intensity\nend_header\n1 2 3 0.5\n4 5 6 0.9\n";
    let points = parse_ply_records(content);
    assert_eq!(points.len(), 2);
    assert_eq!(value(&points[0].x), 1.0);
    assert_eq!(value(&points[0].intensity), 0.5);
    assert_eq!(value(&points[1].y), 5.0);
}

#[test]
fn ply_lines_before_the_header_ends_are_skipped() {
    let content = "ply\nformat ascii 1.0\ncomment made by hand\nproperty float x\nend_header\n2.5\n";
    let points = parse_ply_records(content);
    assert_eq!(points.len(), 1);
    assert_eq!(text(&points[0].x), Some("2.5".to_string()));
    assert_eq!(text(&points[0].y), None);
}

#[test]
fn ply_later_elements_are_read_as_points() {
    let content = "element vertex 1\nproperty float x\nelement face 0\nend_header\n1\n";
    let points = parse_ply_records(content);
    assert_eq!(points.len(), 2);
    assert_eq!(text(&points[0].x), Some("element".to_string()));
    assert_eq!(text(&points[1].x), Some("1".to_string()));
}

#[test]
fn format_follows_extension_case_insensitively() {
    assert_eq!(point_cloud_format(b"bin"), Some(PointCloudFormat::VelodyneBin));
    assert_eq!(point_cloud_format(b"PCD"), Some(PointCloudFormat::PcdAscii));
    assert_eq!(point_cloud_format(b"Ply"), Some(PointCloudFormat::PlyAscii));
}

#[test]
fn unknown_extensions_are_unsupported() {
    assert_eq!(point_cloud_format(b""), None);
    assert_eq!(point_cloud_format(b"las"), None);
    assert_eq!(point_cloud_format(b"bins"), None);
    assert_eq!(point_cloud_format("pçd".as_bytes()), None);
}

#[test]
fn pcd_without_data_line_has_no_points() {
    let content = "VERSION .7\nFIELDS x y z\nPOINTS 2\n1 2 3\n4 5 6\n";
    assert!(parse_pcd_records(content).is_empty());
}

#[test]
fn ply_without_header_end_has_no_points() {
    let content = "ply\nformat ascii 1.0\nproperty float x\n1\n2\n";
    assert!(parse_ply_records(content).is_empty());
}

#[test]
fn crlf_files_read_like_lf_files() {
    let pcd = "VERSION .7\nFIELDS x y z intensity\nDATA ascii\n1 2 3 0.25\n4 5 6 0.75\n";
    assert_eq!(parse_pcd_records(&pcd.replace('\n', "\r\n")), parse_pcd_records(pcd));
    let ply = "ply\nelement vertex 1\nproperty float x\nproperty float y\nend_header\n1 2\n";
    assert_eq!(parse_ply_records(&ply.replace('\n', "\r\n")), parse_ply_records(ply));
}

#[test]
fn pcd_keyword_lines_after_data_are_not_points() {
    let content = "FIELDS x y z\nDATA ascii\nPOINTS 1 2 3\nDATA 4 5 6\n7 8 9\nFIELDS z y x\n1 2 3\n";
    let points = parse_pcd_records(content);
    assert_eq!(points.len(), 2);
    assert_eq!(text(&points[0].x), Some("7".to_string()));
    assert_eq!(text(&points[1].x), Some("3".to_string()));
    assert_eq!(text(&points[1].z), Some("1".to_string()));
}

#[test]
fn ply_fields_are_the_last_tokens_of_property_lines() {
    let content = "end_header\nproperty float y\n1\nproperty list uchar int x\n2 3\n";
    let points = parse_ply_records(content);
    assert_eq!(points.len(), 2);
    assert_eq!(text(&points[0].y), Some("1".to_string()));
    assert_eq!(text(&points[0].x), None);
    assert_eq!(text(&points[1].y), Some("2".to_string()));
    assert_eq!(text(&points[1].x), Some("3".to_string()));
}
