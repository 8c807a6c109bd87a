use nuscenes_data::error::{Error, ParseFailure};
use nuscenes_data::serializable::{
    camera_intrinsic_from_rows, camera_intrinsic_to_rows, logfile_from_str, logfile_to_string,
    opt_token_from_str, opt_token_to_string, Channel, FileFormat, Float64, Modality, Timestamp,
    VisibilityLevel, TOKEN_LENGTH,
};
use nuscenes_data::{Token, VisibilityToken};

#[test]
fn token_length_is_sixteen_bytes() {
    assert_eq!(TOKEN_LENGTH, 16);
}

#[test]
fn token_from_str_reads_big_endian_hex() {
    let token = Token::from_str("000102030405060708090a0b0c0d0e0f").unwrap();
    assert_eq!(token, Token(0x000102030405060708090a0b0c0d0e0f));
    let token = Token::from_str("24fa5b014824491f9bd2f9e4a1a1b5b8").unwrap();
    assert_eq!(token, Token(0x24fa5b014824491f9bd2f9e4a1a1b5b8));
}

#[test]
fn token_from_str_accepts_both_cases() {
    let lower = Token::from_str("ffeeddccbbaa99887766554433221100").unwrap();
    let upper = Token::from_str("FFEEDDCCBBAA99887766554433221100").unwrap();
    let mixed = Token::from_str("FfEeDdCcBbAa99887766554433221100").unwrap();
    assert_eq!(lower, Token(0xffeeddccbbaa99887766554433221100));
    assert_eq!(lower, upper);
    assert_eq!(lower, mixed);
}

#[test]
fn token_from_str_extremes() {
    assert_eq!(Token::from_str("00000000000000000000000000000000"), Ok(Token(0)));
    assert_eq!(Token::from_str("ffffffffffffffffffffffffffffffff"), Ok(Token(u128::MAX)));
}

#[test]
fn token_from_str_refuses_non_hex() {
    assert_eq!(
        Token::from_str("g00102030405060708090a0b0c0d0e0f"),
        Err(Error::ParseError(ParseFailure::InvalidHexCharacter { c: 'g', index: 0 }))
    );
    assert_eq!(
        Token::from_str("0001 2030405060708090a0b0c0d0e0f"),
        Err(Error::ParseError(ParseFailure::InvalidHexCharacter { c: ' ', index: 4 }))
    );
    assert_eq!(
        Token::from_str("000102030405060708090a0b0c0d0e0x"),
        Err(Error::ParseError(ParseFailure::InvalidHexCharacter { c: 'x', index: 31 }))
    );
    assert_eq!(
        Token::from_str("0x"),
        Err(Error::ParseError(ParseFailure::InvalidHexCharacter { c: 'x', index: 1 }))
    );
}

#[test]
fn token_from_str_refuses_odd_length_first() {
    assert_eq!(
        Token::from_str("000102030405060708090a0b0c0d0e0"),
        Err(Error::ParseError(ParseFailure::OddLength))
    );
    assert_eq!(Token::from_str("g"), Err(Error::ParseError(ParseFailure::OddLength)));
    assert_eq!(Token::from_str("0g0"), Err(Error::ParseError(ParseFailure::OddLength)));
}

#[test]
fn token_from_str_counts_the_bytes_of_other_characters() {
    // The first character takes two bytes, so that the text has 32 bytes.
    assert_eq!(
        Token::from_str("\u{e9}00102030405060708090a0b0c0d0e0"),
        Err(Error::ParseError(ParseFailure::InvalidHexCharacter { c: '\u{c3}', index: 0 }))
    );
    assert_eq!(
        Token::from_str("00\u{e9}"),
        Err(Error::ParseError(ParseFailure::InvalidHexCharacter { c: '\u{c3}', index: 2 }))
    );
    assert_eq!(Token::from_str("0\u{e9}"), Err(Error::ParseError(ParseFailure::OddLength)));
}

#[test]
fn token_from_str_refuses_wrong_length() {
    assert_eq!(
        Token::from_str("000102030405060708090a0b0c0d0e"),
        Err(Error::ParseError(ParseFailure::InvalidLength { expected: 32, found: 30 }))
    );
    assert_eq!(
        Token::from_str("000102030405060708090a0b0c0d0e0f10"),
        Err(Error::ParseError(ParseFailure::InvalidLength { expected: 32, found: 34 }))
    );
    assert_eq!(
        Token::from_str(""),
        Err(Error::ParseError(ParseFailure::InvalidLength { expected: 32, found: 0 }))
    );
}

#[test]
fn token_to_string_writes_lower_case_hex() {
    assert_eq!(
        Token(0x000102030405060708090a0b0c0d0e0f).to_string(),
        "000102030405060708090a0b0c0d0e0f"
    );
    assert_eq!(Token(0).to_string(), "00000000000000000000000000000000");
    assert_eq!(Token(u128::MAX).to_string(), "ffffffffffffffffffffffffffffffff");
    assert_eq!(Token(0xABCDEF).to_string(), "00000000000000000000000000abcdef");
}

#[test]
fn token_bytes_are_big_endian() {
    let bytes: [u8; 16] = [0, 1, 2, 3, 4, 5, 6, 7, 8, 9, 10, 11, 12, 13, 14, 15];
    assert_eq!(Token::from_bytes(&bytes), Token(0x000102030405060708090a0b0c0d0e0f));
    assert_eq!(Token(0x000102030405060708090a0b0c0d0e0f).to_bytes(), bytes);
    assert_eq!(Token::from_bytes(&[0xff; 16]), Token(u128::MAX));
    assert_eq!(Token(1).to_bytes(), [0, 0, 0, 0, 0, 0, 0, 0, 0, 0, 0, 0, 0, 0, 0, 1]);
    assert_eq!(Token(1 << 120).to_bytes(), [1, 0, 0, 0, 0, 0, 0, 0, 0, 0, 0, 0, 0, 0, 0, 0]);
}

#[test]
fn token_text_round_trip() {
    let values: [u128; 5] = [0, 1, 255, 0x1f69f87a4e175e5ba1d03e2e6d9bcd27, u128::MAX];
    for value in values {
        let text = Token(value).to_string();
        assert_eq!(text.len(), 32);
        assert_eq!(Token::from_str(&text), Ok(Token(value)));
    }
}

#[test]
fn visibility_token_from_str_reads_decimal() {
    assert_eq!(VisibilityToken::from_str("4"), Ok(VisibilityToken(4)));
    assert_eq!(VisibilityToken::from_str("0"), Ok(VisibilityToken(0)));
    assert_eq!(VisibilityToken::from_str("007"), Ok(VisibilityToken(7)));
    assert_eq!(VisibilityToken::from_str("+12"), Ok(VisibilityToken(12)));
    assert_eq!(VisibilityToken::from_str("4294967295"), Ok(VisibilityToken(u32::MAX)));
}

#[test]
fn visibility_token_from_str_refuses_other_text() {
    let refused = Err(Error::ParseError(ParseFailure::InvalidNumber));
    assert_eq!(VisibilityToken::from_str(""), refused);
    assert_eq!(VisibilityToken::from_str("+"), refused);
    assert_eq!(VisibilityToken::from_str("-1"), refused);
    assert_eq!(VisibilityToken::from_str(" 1"), refused);
    assert_eq!(VisibilityToken::from_str("1 "), refused);
    assert_eq!(VisibilityToken::from_str("1_0"), refused);
    assert_eq!(VisibilityToken::from_str("4a"), refused);
    assert_eq!(VisibilityToken::from_str("4294967296"), refused);
}

#[test]
fn visibility_token_to_string_writes_decimal() {
    assert_eq!(VisibilityToken(0).to_string(), "0");
    assert_eq!(VisibilityToken(4).to_string(), "4");
    assert_eq!(VisibilityToken(10).to_string(), "10");
    assert_eq!(VisibilityToken(4294967295).to_string(), "4294967295");
    assert_eq!(VisibilityToken::from_str(&VisibilityToken(90210).to_string()), Ok(VisibilityToken(90210)));
}

#[test]
fn empty_text_is_no_token() {
    assert_eq!(opt_token_from_str(""), Ok(None));
}

#[test]
fn non_empty_text_is_a_token_or_refused() {
    assert_eq!(
        opt_token_from_str("000102030405060708090a0b0c0d0e0f"),
        Ok(Some(Token(0x000102030405060708090a0b0c0d0e0f)))
    );
    assert_eq!(
        opt_token_from_str("zz"),
        Err(Error::ParseError(ParseFailure::InvalidHexCharacter { c: 'z', index: 0 }))
    );
    assert_eq!(
        opt_token_from_str("00"),
        Err(Error::ParseError(ParseFailure::InvalidLength { expected: 32, found: 2 }))
    );
}

#[test]
fn opt_token_to_string_writes_empty_for_none() {
    assert_eq!(opt_token_to_string(&None), "");
    assert_eq!(opt_token_to_string(&Some(Token(1))), "00000000000000000000000000000001");
    assert_eq!(opt_token_from_str(&opt_token_to_string(&Some(Token(77)))), Ok(Some(Token(77))));
    assert_eq!(opt_token_from_str(&opt_token_to_string(&None)), Ok(None));
}

#[test]
fn logfile_empty_text_is_absent() {
    assert_eq!(logfile_from_str(""), None);
    assert_eq!(logfile_from_str("logs/a.log"), Some("logs/a.log".to_string()));
    assert_eq!(logfile_to_string(&None), "");
    assert_eq!(logfile_to_string(&Some("logs/a.log".to_string())), "logs/a.log");
}

fn row(a: f64, b: f64, c: f64) -> Vec<Float64> {
    vec![Float64(a.to_bits()), Float64(b.to_bits()), Float64(c.to_bits())]
}

#[test]
fn camera_intrinsic_no_rows_is_absent() {
    assert_eq!(camera_intrinsic_from_rows(&vec![]), Ok(None));
}

#[test]
fn camera_intrinsic_three_rows_is_a_matrix() {
    let rows = vec![row(1266.4, 0.0, 816.2), row(0.0, 1266.4, 491.5), row(0.0, 0.0, 1.0)];
    let matrix = camera_intrinsic_from_rows(&rows).unwrap().unwrap();
    assert_eq!(f64::from_bits(matrix[0][0].0), 1266.4);
    assert_eq!(f64::from_bits(matrix[0][2].0), 816.2);
    assert_eq!(f64::from_bits(matrix[1][1].0), 1266.4);
    assert_eq!(f64::from_bits(matrix[1][2].0), 491.5);
    assert_eq!(f64::from_bits(matrix[2][2].0), 1.0);
    assert_eq!(f64::from_bits(matrix[2][0].0), 0.0);
}

#[test]
fn camera_intrinsic_two_rows_is_refused() {
    let rows = vec![row(1.0, 0.0, 0.0), row(0.0, 1.0, 0.0)];
    assert_eq!(
        camera_intrinsic_from_rows(&rows),
        Err(Error::ParseError(ParseFailure::InvalidRowCount { found: 2 }))
    );
}

#[test]
fn camera_intrinsic_other_row_counts_are_refused() {
    let one = vec![row(1.0, 0.0, 0.0)];
    assert_eq!(
        camera_intrinsic_from_rows(&one),
        Err(Error::ParseError(ParseFailure::InvalidRowCount { found: 1 }))
    );
    let four = vec![row(1.0, 0.0, 0.0), row(0.0, 1.0, 0.0), row(0.0, 0.0, 1.0), row(0.0, 0.0, 1.0)];
    assert_eq!(
        camera_intrinsic_from_rows(&four),
        Err(Error::ParseError(ParseFailure::InvalidRowCount { found: 4 }))
    );
}

#[test]
fn camera_intrinsic_short_row_is_refused() {
    let rows = vec![row(1.0, 0.0, 0.0), vec![Float64(0), Float64(0)], row(0.0, 0.0, 1.0)];
    assert_eq!(
        camera_intrinsic_from_rows(&rows),
        Err(Error::ParseError(ParseFailure::InvalidRowLength { row: 1, found: 2 }))
    );
    let rows = vec![vec![Float64(0), Float64(0), Float64(0), Float64(0)]];
    assert_eq!(
        camera_intrinsic_from_rows(&rows),
        Err(Error::ParseError(ParseFailure::InvalidRowLength { row: 0, found: 4 }))
    );
}

#[test]
fn camera_intrinsic_rows_round_trip() {
    assert_eq!(camera_intrinsic_to_rows(&None), Vec::<Vec<Float64>>::new());
    let rows = vec![row(1.0, 2.0, 3.0), row(4.0, 5.0, 6.0), row(7.0, 8.0, 9.0)];
    let matrix = camera_intrinsic_from_rows(&rows).unwrap();
    assert_eq!(camera_intrinsic_to_rows(&matrix), rows);
}

#[test]
fn timestamp_splits_into_seconds_and_nanoseconds() {
    let time = Timestamp(1_532_402_927_647_951_000);
    assert_eq!(time.secs(), 1_532_402_927);
    assert_eq!(time.subsec_nanos(), 647_951_000);
    assert_eq!(Timestamp(0).secs(), 0);
    assert_eq!(Timestamp(999_999_999).secs(), 0);
    assert_eq!(Timestamp(999_999_999).subsec_nanos(), 999_999_999);
    assert_eq!(Timestamp(u64::MAX).secs(), 18_446_744_073);
    assert_eq!(Timestamp(u64::MAX).subsec_nanos(), 709_551_615);
}

#[test]
fn modality_names_are_lower_case() {
    assert_eq!(Modality::from_name("camera"), Ok(Modality::Camera));
    assert_eq!(Modality::from_name("lidar"), Ok(Modality::Lidar));
    assert_eq!(Modality::from_name("radar"), Ok(Modality::Radar));
    assert_eq!(Modality::from_name("Camera"), Err(Error::ParseError(ParseFailure::UnknownName)));
    assert_eq!(Modality::from_name(""), Err(Error::ParseError(ParseFailure::UnknownName)));
    for modality in [Modality::Camera, Modality::Lidar, Modality::Radar] {
        assert_eq!(Modality::from_name(modality.name()), Ok(modality));
    }
}

#[test]
fn file_format_names_are_lower_case() {
    assert_eq!(FileFormat::from_name("pcd"), Ok(FileFormat::Pcd));
    assert_eq!(FileFormat::from_name("jpg"), Ok(FileFormat::Jpg));
    assert_eq!(FileFormat::from_name("JPG"), Err(Error::ParseError(ParseFailure::UnknownName)));
    assert_eq!(FileFormat::from_name("png"), Err(Error::ParseError(ParseFailure::UnknownName)));
    assert_eq!(FileFormat::Pcd.name(), "pcd");
    assert_eq!(FileFormat::Jpg.name(), "jpg");
}

#[test]
fn visibility_level_names_are_kebab_case() {
    assert_eq!(VisibilityLevel::from_name("v0-40"), Ok(VisibilityLevel::V0_40));
    assert_eq!(VisibilityLevel::from_name("v40-60"), Ok(VisibilityLevel::V40_60));
    assert_eq!(VisibilityLevel::from_name("v60-80"), Ok(VisibilityLevel::V60_80));
    assert_eq!(VisibilityLevel::from_name("v80-100"), Ok(VisibilityLevel::V80_100));
    assert_eq!(
        VisibilityLevel::from_name("v0_40"),
        Err(Error::ParseError(ParseFailure::UnknownName))
    );
    for level in [
        VisibilityLevel::V0_40,
        VisibilityLevel::V40_60,
        VisibilityLevel::V60_80,
        VisibilityLevel::V80_100,
    ] {
        assert_eq!(VisibilityLevel::from_name(level.name()), Ok(level));
    }
}

#[test]
fn channel_names_are_screaming_snake_case() {
    let all = [
        (Channel::CamBack, "CAM_BACK"),
        (Channel::CamBackLeft, "CAM_BACK_LEFT"),
        (Channel::CamBackRight, "CAM_BACK_RIGHT"),
        (Channel::CamFront, "CAM_FRONT"),
        (Channel::CamFrontLeft, "CAM_FRONT_LEFT"),
        (Channel::CamFrontRight, "CAM_FRONT_RIGHT"),
        (Channel::CamFrontZoomed, "CAM_FRONT_ZOOMED"),
        (Channel::LidarTop, "LIDAR_TOP"),
        (Channel::RadarFront, "RADAR_FRONT"),
        (Channel::RadarFrontLeft, "RADAR_FRONT_LEFT"),
        (Channel::RadarFrontRight, "RADAR_FRONT_RIGHT"),
        (Channel::RadarBackLeft, "RADAR_BACK_LEFT"),
        (Channel::RadarBackRight, "RADAR_BACK_RIGHT"),
    ];
    for (channel, name) in all {
        assert_eq!(channel.name(), name);
        assert_eq!(Channel::from_name(name), Ok(channel));
    }
    assert_eq!(Channel::from_name("cam_back"), Err(Error::ParseError(ParseFailure::UnknownName)));
    assert_eq!(Channel::from_name("CAM-BACK"), Err(Error::ParseError(ParseFailure::UnknownName)));
}
