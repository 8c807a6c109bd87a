use nuscenes_data::error::{Corruption, Error, ParseFailure, Reference, Table};
use nuscenes_data::pointcloud::{decode_bin_points, BinPoint, Float32, POINT_LENGTH};
use nuscenes_data::token::write_decimal;

#[test]
fn write_decimal_has_no_leading_zeros() {
    assert_eq!(write_decimal(0), "0");
    assert_eq!(write_decimal(9), "9");
    assert_eq!(write_decimal(10), "10");
    assert_eq!(write_decimal(1234567890), "1234567890");
    assert_eq!(write_decimal(u64::MAX), "18446744073709551615");
}

#[test]
fn internal_error_message() {
    assert_eq!(Error::InternalBug.to_string(), "internal error, please report bug");
}

#[test]
fn parse_error_messages() {
    assert_eq!(
        Error::ParseError(ParseFailure::OddLength).to_string(),
        "parsing error: cannot decode token: odd number of digits"
    );
    assert_eq!(
        Error::ParseError(ParseFailure::InvalidHexCharacter { c: 'x', index: 31 }).to_string(),
        "parsing error: cannot decode token: invalid character with code 120 at position 31"
    );
    assert_eq!(
        Error::ParseError(ParseFailure::InvalidStringLength).to_string(),
        "parsing error: cannot decode token: invalid string length"
    );
    assert_eq!(
        Error::ParseError(ParseFailure::InvalidLength { expected: 32, found: 30 }).to_string(),
        "parsing error: invalid length: expected length 32, but found 30"
    );
    assert_eq!(
        Error::ParseError(ParseFailure::InvalidNumber).to_string(),
        "parsing error: invalid visibility token: not an unsigned decimal number of 32 bits"
    );
    assert_eq!(Error::ParseError(ParseFailure::UnknownName).to_string(), "parsing error: unknown name");
    assert_eq!(
        Error::ParseError(ParseFailure::InvalidRowLength { row: 1, found: 2 }).to_string(),
        "parsing error: invalid length 2 of row 1, expected a row of 3 numbers"
    );
    assert_eq!(
        Error::ParseError(ParseFailure::InvalidRowCount { found: 2 }).to_string(),
        "parsing error: invalid length 2, expected an empty array or a 3x3 two-dimensional array"
    );
}

#[test]
fn dangling_token_message_names_both_records() {
    let error = Error::CorruptedDataset(Corruption::DanglingToken {
        field: Reference::CalibratedSensorSensor,
        holder: 0x50,
        token: 0x1f69f87a4e175e5ba1d03e2e6d9bcd27,
    });
    assert_eq!(
        error.to_string(),
        "corrupted file: the token 1f69f87a4e175e5ba1d03e2e6d9bcd27 of the calibrated sensor \
         00000000000000000000000000000050 does not refer to any sensor"
    );
}

#[test]
fn dangling_visibility_message_writes_the_number() {
    let error = Corruption::DanglingToken { field: Reference::AnnotationVisibility, holder: 1, token: 4 };
    assert_eq!(
        error.to_string(),
        "the token 4 of the sample annotation 00000000000000000000000000000001 does not refer to any \
         visibility"
    );
}

#[test]
fn unmatched_link_messages() {
    assert_eq!(
        Corruption::UnmatchedPrev { table: Table::Sample, from: 1, to: 2 }.to_string(),
        "the sample 00000000000000000000000000000002 names 00000000000000000000000000000001 as its prev, \
         which does not name it as its next"
    );
    assert_eq!(
        Corruption::UnmatchedNext { table: Table::SampleData, from: 1, to: 2 }.to_string(),
        "the sample data 00000000000000000000000000000001 names 00000000000000000000000000000002 as its \
         next, which does not name it as its prev"
    );
}

#[test]
fn chain_messages() {
    assert_eq!(
        Corruption::ChainLength { table: Table::Instance, owner: 0x90, declared: 39, found: Some(40) }
            .to_string(),
        "the instance with token 00000000000000000000000000000090 assures a chain of 39 records, but in \
         fact 40"
    );
    assert_eq!(
        Corruption::ChainLength { table: Table::Scene, owner: 0x20, declared: 2, found: None }.to_string(),
        "the scene with token 00000000000000000000000000000020 assures a chain of 2 records, but in fact \
         its chain does not end"
    );
    assert_eq!(
        Corruption::ChainEnd { table: Table::Scene, owner: 0x20, last: 0x32, found: 0x33 }.to_string(),
        "the scene with token 00000000000000000000000000000020 assures the last token \
         00000000000000000000000000000032, but in fact 00000000000000000000000000000033"
    );
}

#[test]
fn chain_end_messages() {
    assert_eq!(
        Corruption::ChainHead { table: Table::Scene, owner: 0x20, first: 0x31, prev: 0x30 }.to_string(),
        "the scene with token 00000000000000000000000000000020 assures the first token \
         00000000000000000000000000000031, which names 00000000000000000000000000000030 as its prev"
    );
    assert_eq!(
        Corruption::ChainTail { table: Table::Instance, owner: 0x90, last: 0x31, next: 0x32 }.to_string(),
        "the instance with token 00000000000000000000000000000090 assures the last token \
         00000000000000000000000000000031, which names 00000000000000000000000000000032 as its next"
    );
    assert_eq!(
        Corruption::UnownedHead { table: Table::Sample, head: 0x33 }.to_string(),
        "the sample 00000000000000000000000000000033 names no prev, but is the first token of no chain"
    );
    assert_eq!(
        Corruption::UnownedTail { table: Table::SampleAnnotation, tail: 0x33 }.to_string(),
        "the sample annotation 00000000000000000000000000000033 names no next, but is the last token of no \
         chain"
    );
    assert_eq!(
        Corruption::SharedHead { table: Table::Scene, owner: 0x21, other: 0x20, first: 0x31 }.to_string(),
        "the scene with token 00000000000000000000000000000021 and the one with token \
         00000000000000000000000000000020 assure the same first token 00000000000000000000000000000031"
    );
    assert_eq!(
        Corruption::SharedTail { table: Table::Instance, owner: 0x21, other: 0x20, last: 0x31 }.to_string(),
        "the instance with token 00000000000000000000000000000021 and the one with token \
         00000000000000000000000000000020 assure the same last token 00000000000000000000000000000031"
    );
}

#[test]
fn table_names() {
    let all = [
        (Table::Attribute, "attribute"),
        (Table::CalibratedSensor, "calibrated sensor"),
        (Table::Category, "category"),
        (Table::EgoPose, "ego pose"),
        (Table::Instance, "instance"),
        (Table::Log, "log"),
        (Table::MapRecord, "map"),
        (Table::Sample, "sample"),
        (Table::SampleAnnotation, "sample annotation"),
        (Table::SampleData, "sample data"),
        (Table::Scene, "scene"),
        (Table::Sensor, "sensor"),
        (Table::Visibility, "visibility"),
    ];
    for (table, name) in all {
        assert_eq!(table.name(), name);
    }
}

#[test]
fn references_know_their_tables() {
    assert_eq!(Reference::MapLog.holder_table(), Table::MapRecord);
    assert_eq!(Reference::MapLog.target_table(), Table::Log);
    assert_eq!(Reference::AnnotationVisibility.holder_table(), Table::SampleAnnotation);
    assert_eq!(Reference::AnnotationVisibility.target_table(), Table::Visibility);
    assert_eq!(Reference::DataCalibratedSensor.holder_table(), Table::SampleData);
    assert_eq!(Reference::DataCalibratedSensor.target_table(), Table::CalibratedSensor);
    assert_eq!(Reference::InstanceLastAnnotation.target_table(), Table::SampleAnnotation);
    assert_eq!(Reference::SceneFirstSample.holder_table(), Table::Scene);
}

fn point_bytes(x: f32, y: f32, z: f32, intensity: f32, ring: i32) -> Vec<u8> {
    let mut bytes = vec![];
    bytes.extend_from_slice(&x.to_le_bytes());
    bytes.extend_from_slice(&y.to_le_bytes());
    bytes.extend_from_slice(&z.to_le_bytes());
    bytes.extend_from_slice(&intensity.to_le_bytes());
    bytes.extend_from_slice(&ring.to_le_bytes());
    bytes
}

#[test]
fn bin_points_are_five_little_endian_numbers() {
    assert_eq!(POINT_LENGTH, 20);
    let mut bytes = point_bytes(1.5, -2.25, 0.0, 37.0, 7);
    bytes.extend(point_bytes(-0.5, 1e9, f32::MIN_POSITIVE, 255.0, -1));
    bytes.extend(point_bytes(0.0, 0.0, 0.0, 0.0, i32::MIN));
    let points = decode_bin_points(&bytes).unwrap();
    assert_eq!(points.len(), 3);
    assert_eq!(f32::from_bits(points[0].x.0), 1.5);
    assert_eq!(f32::from_bits(points[0].y.0), -2.25);
    assert_eq!(f32::from_bits(points[0].z.0), 0.0);
    assert_eq!(f32::from_bits(points[0].intensity.0), 37.0);
    assert_eq!(points[0].ring_index, 7);
    assert_eq!(f32::from_bits(points[1].y.0), 1e9);
    assert_eq!(points[1].ring_index, -1);
    assert_eq!(points[2].ring_index, i32::MIN);
    assert_eq!(
        decode_bin_points(&[1, 2, 3, 4, 5, 6, 7, 8, 9, 10, 11, 12, 13, 14, 15, 16, 0xff, 0xff, 0xff, 0x7f]),
        Ok(vec![BinPoint {
            x: Float32(0x04030201),
            y: Float32(0x08070605),
            z: Float32(0x0c0b0a09),
            intensity: Float32(0x100f0e0d),
            ring_index: i32::MAX,
        }])
    );
}

#[test]
fn bin_payload_of_no_bytes_has_no_points() {
    assert_eq!(decode_bin_points(&[]), Ok(vec![]));
}

#[test]
fn bin_payload_of_broken_length_is_refused() {
    let bytes = vec![0u8; 39];
    assert_eq!(decode_bin_points(&bytes), Err(Error::CorruptedFile { size: 39, unit: 20 }));
    assert_eq!(decode_bin_points(&[0u8; 1]), Err(Error::CorruptedFile { size: 1, unit: 20 }));
    assert_eq!(
        Error::CorruptedFile { size: 39, unit: 20 }.to_string(),
        "corrupted file: the file size is 39, which is not multiple of 20"
    );
}
