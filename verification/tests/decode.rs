use nuscenes_data::error::{Error, ParseFailure};
use nuscenes_data::serializable::{
    decode_opt_visibility_token, decode_tokens, Attribute, CalibratedSensor, Category, Channel, Date, EgoPose,
    FileFormat, Float64, Instance, Log, MapRecord, Modality, Sample, SampleAnnotation, SampleData, Scene, Sensor,
    Timestamp, Visibility, VisibilityLevel,
};
use nuscenes_data::{Token, VisibilityToken};

const T1: &str = "00000000000000000000000000000001";
const T2: &str = "00000000000000000000000000000002";
const T3: &str = "00000000000000000000000000000003";
const T4: &str = "00000000000000000000000000000004";
const SHORT: &str = "0000";
const BAD: &str = "x0000000000000000000000000000001";

fn invalid_hex() -> Error {
    Error::ParseError(ParseFailure::InvalidHexCharacter { c: 'x', index: 0 })
}

fn invalid_length(found: usize) -> Error {
    Error::ParseError(ParseFailure::InvalidLength { expected: 32, found })
}

fn unknown_name() -> Error {
    Error::ParseError(ParseFailure::UnknownName)
}

fn one() -> [Float64; 4] {
    [Float64(1.0f64.to_bits()), Float64(0), Float64(0), Float64(0)]
}

fn origin() -> [Float64; 3] {
    [Float64(0), Float64(0), Float64(0)]
}

#[test]
fn decode_tokens_reads_each_text() {
    let texts = vec![T1.to_string(), T3.to_string(), T2.to_string()];
    assert_eq!(decode_tokens(&texts), Ok(vec![Token(1), Token(3), Token(2)]));
    assert_eq!(decode_tokens(&vec![]), Ok(vec![]));
}

#[test]
fn decode_tokens_reports_the_first_refused_text() {
    let texts = vec![T1.to_string(), SHORT.to_string(), BAD.to_string()];
    assert_eq!(decode_tokens(&texts), Err(invalid_length(4)));
    let texts = vec![BAD.to_string(), SHORT.to_string()];
    assert_eq!(decode_tokens(&texts), Err(invalid_hex()));
    let texts = vec![T1.to_string(), String::new()];
    assert_eq!(decode_tokens(&texts), Err(invalid_length(0)));
}

#[test]
fn decode_opt_visibility_token_reads_missing_as_none() {
    assert_eq!(decode_opt_visibility_token(None), Ok(None));
    assert_eq!(decode_opt_visibility_token(Some("3")), Ok(Some(VisibilityToken(3))));
    assert_eq!(
        decode_opt_visibility_token(Some("")),
        Err(Error::ParseError(ParseFailure::InvalidNumber))
    );
}

#[test]
fn attribute_and_category_decode() {
    let attribute = Attribute::decode(T1, "d".to_string(), "n".to_string()).unwrap();
    assert_eq!(attribute, Attribute { token: Token(1), description: "d".to_string(), name: "n".to_string() });
    assert_eq!(Attribute::decode(BAD, String::new(), String::new()), Err(invalid_hex()));
    let category = Category::decode(T2, "d".to_string(), "n".to_string()).unwrap();
    assert_eq!(category, Category { token: Token(2), description: "d".to_string(), name: "n".to_string() });
    assert_eq!(Category::decode(SHORT, String::new(), String::new()), Err(invalid_length(4)));
}

#[test]
fn calibrated_sensor_decode() {
    let rows = vec![
        vec![Float64(1), Float64(2), Float64(3)],
        vec![Float64(4), Float64(5), Float64(6)],
        vec![Float64(7), Float64(8), Float64(9)],
    ];
    let sensor = CalibratedSensor::decode(T1, T2, one(), &rows, origin()).unwrap();
    assert_eq!(sensor.token, Token(1));
    assert_eq!(sensor.sensor_token, Token(2));
    assert_eq!(sensor.rotation, one());
    assert_eq!(sensor.translation, origin());
    assert_eq!(
        sensor.camera_intrinsic,
        Some([
            [Float64(1), Float64(2), Float64(3)],
            [Float64(4), Float64(5), Float64(6)],
            [Float64(7), Float64(8), Float64(9)]
        ])
    );
    let lidar = CalibratedSensor::decode(T1, T2, one(), &vec![], origin()).unwrap();
    assert_eq!(lidar.camera_intrinsic, None);
}

#[test]
fn calibrated_sensor_with_two_rows_is_refused() {
    let rows = vec![vec![Float64(1), Float64(2), Float64(3)], vec![Float64(4), Float64(5), Float64(6)]];
    assert_eq!(
        CalibratedSensor::decode(T1, T2, one(), &rows, origin()),
        Err(Error::ParseError(ParseFailure::InvalidRowCount { found: 2 }))
    );
    assert_eq!(CalibratedSensor::decode(T1, BAD, one(), &rows, origin()), Err(invalid_hex()));
    assert_eq!(CalibratedSensor::decode(SHORT, BAD, one(), &rows, origin()), Err(invalid_length(4)));
}

#[test]
fn ego_pose_decode() {
    let pose = EgoPose::decode(T1, Timestamp(5), one(), origin()).unwrap();
    assert_eq!(pose, EgoPose { token: Token(1), timestamp: Timestamp(5), rotation: one(), translation: origin() });
    assert_eq!(EgoPose::decode("", Timestamp(5), one(), origin()), Err(invalid_length(0)));
}

#[test]
fn instance_decode() {
    let instance = Instance::decode(T1, 39, T2, T3, T4).unwrap();
    assert_eq!(
        instance,
        Instance {
            token: Token(1),
            nbr_annotations: 39,
            category_token: Token(2),
            first_annotation_token: Token(3),
            last_annotation_token: Token(4),
        }
    );
    assert_eq!(Instance::decode(T1, 39, T2, T3, ""), Err(invalid_length(0)));
    assert_eq!(Instance::decode(T1, 39, BAD, SHORT, T4), Err(invalid_hex()));
    assert_eq!(Instance::decode(T1, 39, T2, SHORT, BAD), Err(invalid_length(4)));
}

#[test]
fn log_decode_reads_empty_logfile_as_absent() {
    let date = Date { year: 2018, month: 7, day: 24 };
    let log = Log::decode(T1, date, "boston-seaport".to_string(), "n008".to_string(), "").unwrap();
    assert_eq!(log.token, Token(1));
    assert_eq!(log.date_captured, date);
    assert_eq!(log.location, "boston-seaport");
    assert_eq!(log.vehicle, "n008");
    assert_eq!(log.logfile, None);
    let log = Log::decode(T1, date, String::new(), String::new(), "n008-2018-07-24").unwrap();
    assert_eq!(log.logfile, Some("n008-2018-07-24".to_string()));
    assert_eq!(Log::decode(BAD, date, String::new(), String::new(), ""), Err(invalid_hex()));
}

#[test]
fn map_decode() {
    let map = MapRecord::decode(T1, &vec![T2.to_string(), T3.to_string()], "maps/a.png".to_string(), "c".to_string())
        .unwrap();
    assert_eq!(
        map,
        MapRecord {
            token: Token(1),
            log_tokens: vec![Token(2), Token(3)],
            filename: "maps/a.png".to_string(),
            category: "c".to_string(),
        }
    );
    assert_eq!(
        MapRecord::decode(T1, &vec![T2.to_string(), BAD.to_string()], String::new(), String::new()),
        Err(invalid_hex())
    );
    assert_eq!(
        MapRecord::decode(SHORT, &vec![BAD.to_string()], String::new(), String::new()),
        Err(invalid_length(4))
    );
}

#[test]
fn sample_decode_reads_empty_next_as_none() {
    let sample = Sample::decode(T2, "", T1, T4, Timestamp(9)).unwrap();
    assert_eq!(
        sample,
        Sample { token: Token(2), next: None, prev: Some(Token(1)), scene_token: Token(4), timestamp: Timestamp(9) }
    );
    let sample = Sample::decode(T1, T2, "", T4, Timestamp(9)).unwrap();
    assert_eq!(sample.next, Some(Token(2)));
    assert_eq!(sample.prev, None);
    assert_eq!(Sample::decode(T1, SHORT, BAD, T4, Timestamp(9)), Err(invalid_length(4)));
    assert_eq!(Sample::decode(T1, "", BAD, SHORT, Timestamp(9)), Err(invalid_hex()));
    assert_eq!(Sample::decode(T1, "", "", SHORT, Timestamp(9)), Err(invalid_length(4)));
}

#[test]
fn sample_annotation_decode() {
    let annotation = SampleAnnotation::decode(
        T1,
        5,
        -1,
        origin(),
        one(),
        origin(),
        T2,
        T3,
        &vec![T4.to_string()],
        Some("2"),
        "",
        T4,
    )
    .unwrap();
    assert_eq!(annotation.token, Token(1));
    assert_eq!(annotation.num_lidar_pts, 5);
    assert_eq!(annotation.num_radar_pts, -1);
    assert_eq!(annotation.sample_token, Token(2));
    assert_eq!(annotation.instance_token, Token(3));
    assert_eq!(annotation.attribute_tokens, vec![Token(4)]);
    assert_eq!(annotation.visibility_token, Some(VisibilityToken(2)));
    assert_eq!(annotation.prev, None);
    assert_eq!(annotation.next, Some(Token(4)));
    assert_eq!(annotation.rotation, one());
}

#[test]
fn sample_annotation_decode_reports_the_first_refused_field() {
    let decode = |token: &str, attributes: Vec<String>, visibility: Option<&str>, prev: &str, next: &str| {
        SampleAnnotation::decode(
            token,
            0,
            0,
            origin(),
            one(),
            origin(),
            T2,
            T3,
            &attributes,
            visibility,
            prev,
            next,
        )
    };
    assert_eq!(decode(BAD, vec![SHORT.to_string()], Some("x"), SHORT, SHORT), Err(invalid_hex()));
    assert_eq!(decode(T1, vec![SHORT.to_string()], Some("x"), BAD, BAD), Err(invalid_length(4)));
    assert_eq!(
        decode(T1, vec![], Some("x"), BAD, BAD),
        Err(Error::ParseError(ParseFailure::InvalidNumber))
    );
    assert_eq!(decode(T1, vec![], None, BAD, SHORT), Err(invalid_hex()));
    assert_eq!(decode(T1, vec![], None, "", SHORT), Err(invalid_length(4)));
    assert!(decode(T1, vec![], None, "", "").is_ok());
}

#[test]
fn sample_data_decode() {
    let data =
        SampleData::decode(T1, "jpg", true, "samples/a.jpg".to_string(), Timestamp(7), T2, T3, T4, "", "").unwrap();
    assert_eq!(
        data,
        SampleData {
            token: Token(1),
            fileformat: FileFormat::Jpg,
            is_key_frame: true,
            filename: "samples/a.jpg".to_string(),
            timestamp: Timestamp(7),
            sample_token: Token(2),
            ego_pose_token: Token(3),
            calibrated_sensor_token: Token(4),
            prev: None,
            next: None,
        }
    );
    assert_eq!(
        SampleData::decode(T1, "bmp", true, String::new(), Timestamp(7), BAD, T3, T4, "", ""),
        Err(unknown_name())
    );
    assert_eq!(
        SampleData::decode(T1, "pcd", true, String::new(), Timestamp(7), T2, T3, SHORT, BAD, ""),
        Err(invalid_length(4))
    );
}

#[test]
fn scene_decode() {
    let scene = Scene::decode(T1, "scene-0061".to_string(), "d".to_string(), T2, 39, T3, T4).unwrap();
    assert_eq!(
        scene,
        Scene {
            token: Token(1),
            name: "scene-0061".to_string(),
            description: "d".to_string(),
            log_token: Token(2),
            nbr_samples: 39,
            first_sample_token: Token(3),
            last_sample_token: Token(4),
        }
    );
    assert_eq!(Scene::decode(T1, String::new(), String::new(), T2, 39, BAD, SHORT), Err(invalid_hex()));
}

#[test]
fn sensor_decode() {
    assert_eq!(
        Sensor::decode(T1, "lidar", "LIDAR_TOP"),
        Ok(Sensor { token: Token(1), modality: Modality::Lidar, channel: Channel::LidarTop })
    );
    assert_eq!(Sensor::decode(T1, "LIDAR", "LIDAR_TOP"), Err(unknown_name()));
    assert_eq!(Sensor::decode(T1, "lidar", "lidar_top"), Err(unknown_name()));
    assert_eq!(Sensor::decode(SHORT, "LIDAR", "LIDAR_TOP"), Err(invalid_length(4)));
}

#[test]
fn visibility_decode() {
    assert_eq!(
        Visibility::decode("2", "v40-60", "d".to_string()),
        Ok(Visibility { token: VisibilityToken(2), level: VisibilityLevel::V40_60, description: "d".to_string() })
    );
    assert_eq!(
        Visibility::decode("two", "v40-60", String::new()),
        Err(Error::ParseError(ParseFailure::InvalidNumber))
    );
    assert_eq!(Visibility::decode("2", "v40_60", String::new()), Err(unknown_name()));
}
