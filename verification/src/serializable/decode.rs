//! The records as they are read from the fields of a file entry: every
//! token is given as its text, every enumeration as its name, a camera matrix
//! as its rows. A record is refused with the error of the first of its fields,
//! in the order of the record, that does not follow its encoding.

use crate::error::Error;
use crate::serializable::fields::{
    camera_intrinsic_from_rows, camera_intrinsic_spec, logfile_from_str, opt_token_from_str, opt_token_spec,
};
use crate::serializable::types::{
    named, Attribute, CalibratedSensor, Category, Channel, Date, EgoPose, FileFormat, Float64, Instance, Log,
    MapRecord, Modality, Sample, SampleAnnotation, SampleData, Scene, Sensor, Timestamp, Visibility,
    VisibilityLevel,
};
use crate::token::{token_spec, visibility_token_spec, Token, VisibilityToken};
use vstd::prelude::*;

verus! {

/// What a list of texts decodes to as tokens: the tokens in the order of
/// the texts, or the refusal of the first text that is no token.
pub open spec fn tokens_spec(texts: Seq<String>) -> core::result::Result<Seq<Token>, Error>
    decreases texts.len(),
{
    if texts.len() == 0 {
        Ok(Seq::empty())
    } else {
        match tokens_spec(texts.drop_last()) {
            Err(e) => Err(e),
            Ok(front) => match token_spec(texts.last()@) {
                Ok(token) => Ok(front.push(token)),
                Err(e) => Err(e),
            },
        }
    }
}

/// Reads a list of tokens from their texts.
pub fn decode_tokens(texts: &Vec<String>) -> (r: core::result::Result<Vec<Token>, Error>)
    ensures
        match tokens_spec(texts@) {
            Ok(tokens) => r matches Ok(found) && found@ == tokens,
            Err(e) => r matches Err(err) && err == e,
        },
{
    let mut tokens: Vec<Token> = Vec::new();
    let mut i: usize = 0;
    while i < texts.len()
        invariant
            i <= texts@.len(),
            tokens_spec(texts@.take(i as int)) == Ok::<Seq<Token>, Error>(tokens@),
        decreases texts@.len() - i,
    {
        proof {
            assert(texts@.take(i + 1).drop_last() == texts@.take(i as int));
            assert(texts@.take(i + 1).last() == texts@[i as int]);
        }
        match Token::from_str(texts[i].as_str()) {
            Ok(token) => {
                tokens.push(token);
            },
            Err(e) => {
                proof {
                    lemma_tokens_refused(texts@, i as int + 1);
                }
                return Err(e);
            },
        }
        i += 1;
    }
    assert(texts@.take(texts@.len() as int) == texts@);
    Ok(tokens)
}

/// A list of texts whose beginning is refused is refused with the same error.
proof fn lemma_tokens_refused(texts: Seq<String>, n: int)
    requires
        0 <= n <= texts.len(),
        tokens_spec(texts.take(n)) is Err,
    ensures
        tokens_spec(texts) == tokens_spec(texts.take(n)),
    decreases texts.len() - n,
{
    if n < texts.len() {
        assert(texts.take(n + 1).drop_last() == texts.take(n));
        lemma_tokens_refused(texts, n + 1);
    } else {
        assert(texts.take(n) == texts);
    }
}

/// What the text of a visibility token that may be missing decodes to.
pub open spec fn opt_visibility_token_spec(text: Option<&str>) -> core::result::Result<
    Option<VisibilityToken>,
    Error,
> {
    match text {
        None => Ok(None),
        Some(text) => match visibility_token_spec(text@) {
            Ok(token) => Ok(Some(token)),
            Err(e) => Err(e),
        },
    }
}

/// Reads a visibility token that may be missing.
pub fn decode_opt_visibility_token(text: Option<&str>) -> (r: core::result::Result<
    Option<VisibilityToken>,
    Error,
>)
    ensures
        r == opt_visibility_token_spec(text),
{
    match text {
        None => Ok(None),
        Some(text) => match VisibilityToken::from_str(text) {
            Ok(token) => Ok(Some(token)),
            Err(e) => Err(e),
        },
    }
}

impl Attribute {
    /// What the fields of an entry decode to as an attribute.
    pub open spec fn decode_spec(token: Seq<char>, description: String, name: String) -> core::result::Result<
        Attribute,
        Error,
    > {
        match token_spec(token) {
            Ok(token) => Ok(Attribute { token, description, name }),
            Err(e) => Err(e),
        }
    }

    /// Reads an attribute from the fields of its entry.
    pub fn decode(token: &str, description: String, name: String) -> (r: core::result::Result<Attribute, Error>)
        ensures
            r == Self::decode_spec(token@, description, name),
    {
        let token = Token::from_str(token)?;
        Ok(Attribute { token, description, name })
    }
}

impl Category {
    /// What the fields of an entry decode to as a category.
    pub open spec fn decode_spec(token: Seq<char>, description: String, name: String) -> core::result::Result<
        Category,
        Error,
    > {
        match token_spec(token) {
            Ok(token) => Ok(Category { token, description, name }),
            Err(e) => Err(e),
        }
    }

    /// Reads a category from the fields of its entry.
    pub fn decode(token: &str, description: String, name: String) -> (r: core::result::Result<Category, Error>)
        ensures
            r == Self::decode_spec(token@, description, name),
    {
        let token = Token::from_str(token)?;
        Ok(Category { token, description, name })
    }
}

impl CalibratedSensor {
    /// What the fields of an entry decode to as a calibrated sensor.
    pub open spec fn decode_spec(
        token: Seq<char>,
        sensor_token: Seq<char>,
        rotation: [Float64; 4],
        camera_intrinsic: Seq<Vec<Float64>>,
        translation: [Float64; 3],
    ) -> core::result::Result<CalibratedSensor, Error> {
        match token_spec(token) {
            Err(e) => Err(e),
            Ok(token) => match token_spec(sensor_token) {
                Err(e) => Err(e),
                Ok(sensor_token) => match camera_intrinsic_spec(camera_intrinsic) {
                    Err(e) => Err(e),
                    Ok(camera_intrinsic) => Ok(
                        CalibratedSensor { token, sensor_token, rotation, camera_intrinsic, translation },
                    ),
                },
            },
        }
    }

    /// Reads a calibrated sensor from the fields of its entry.
    pub fn decode(
        token: &str,
        sensor_token: &str,
        rotation: [Float64; 4],
        camera_intrinsic: &Vec<Vec<Float64>>,
        translation: [Float64; 3],
    ) -> (r: core::result::Result<CalibratedSensor, Error>)
        ensures
            r == Self::decode_spec(token@, sensor_token@, rotation, camera_intrinsic@, translation),
    {
        let token = Token::from_str(token)?;
        let sensor_token = Token::from_str(sensor_token)?;
        let camera_intrinsic = camera_intrinsic_from_rows(camera_intrinsic)?;
        Ok(CalibratedSensor { token, sensor_token, rotation, camera_intrinsic, translation })
    }
}

impl EgoPose {
    /// What the fields of an entry decode to as an ego pose.
    pub open spec fn decode_spec(
        token: Seq<char>,
        timestamp: Timestamp,
        rotation: [Float64; 4],
        translation: [Float64; 3],
    ) -> core::result::Result<EgoPose, Error> {
        match token_spec(token) {
            Ok(token) => Ok(EgoPose { token, timestamp, rotation, translation }),
            Err(e) => Err(e),
        }
    }

    /// Reads an ego pose from the fields of its entry.
    pub fn decode(token: &str, timestamp: Timestamp, rotation: [Float64; 4], translation: [Float64; 3]) -> (r:
        core::result::Result<EgoPose, Error>)
        ensures
            r == Self::decode_spec(token@, timestamp, rotation, translation),
    {
        let token = Token::from_str(token)?;
        Ok(EgoPose { token, timestamp, rotation, translation })
    }
}

impl Instance {
    /// What the fields of an entry decode to as an instance.
    pub open spec fn decode_spec(
        token: Seq<char>,
        nbr_annotations: usize,
        category_token: Seq<char>,
        first_annotation_token: Seq<char>,
        last_annotation_token: Seq<char>,
    ) -> core::result::Result<Instance, Error> {
        match token_spec(token) {
            Err(e) => Err(e),
            Ok(token) => match token_spec(category_token) {
                Err(e) => Err(e),
                Ok(category_token) => match token_spec(first_annotation_token) {
                    Err(e) => Err(e),
                    Ok(first_annotation_token) => match token_spec(last_annotation_token) {
                        Err(e) => Err(e),
                        Ok(last_annotation_token) => Ok(
                            Instance {
                                token,
                                nbr_annotations,
                                category_token,
                                first_annotation_token,
                                last_annotation_token,
                            },
                        ),
                    },
                },
            },
        }
    }

    /// Reads an instance from the fields of its entry.
    pub fn decode(
        token: &str,
        nbr_annotations: usize,
        category_token: &str,
        first_annotation_token: &str,
        last_annotation_token: &str,
    ) -> (r: core::result::Result<Instance, Error>)
        ensures
            r == Self::decode_spec(
                token@,
                nbr_annotations,
                category_token@,
                first_annotation_token@,
                last_annotation_token@,
            ),
    {
        let token = Token::from_str(token)?;
        let category_token = Token::from_str(category_token)?;
        let first_annotation_token = Token::from_str(first_annotation_token)?;
        let last_annotation_token = Token::from_str(last_annotation_token)?;
        Ok(Instance { token, nbr_annotations, category_token, first_annotation_token, last_annotation_token })
    }
}

impl Log {
    /// Reads a log from the fields of its entry. An empty `logfile` stands for no log file.
    pub fn decode(token: &str, date_captured: Date, location: String, vehicle: String, logfile: &str) -> (r:
        core::result::Result<Log, Error>)
        ensures
            r is Ok <==> token_spec(token@) is Ok,
            r matches Err(e) ==> token_spec(token@) == Err::<Token, Error>(e),
            r matches Ok(log) ==> {
                &&& token_spec(token@) == Ok::<Token, Error>(log.token)
                &&& log.date_captured == date_captured
                &&& log.location == location
                &&& log.vehicle == vehicle
                &&& logfile@.len() == 0 <==> log.logfile is None
                &&& log.logfile matches Some(path) ==> path@ == logfile@
            },
    {
        let token = Token::from_str(token)?;
        let logfile = logfile_from_str(logfile);
        Ok(Log { token, date_captured, location, vehicle, logfile })
    }
}

impl MapRecord {
    /// Reads a map record from the fields of its entry.
    pub fn decode(token: &str, log_tokens: &Vec<String>, filename: String, category: String) -> (r:
        core::result::Result<MapRecord, Error>)
        ensures
            r is Ok <==> token_spec(token@) is Ok && tokens_spec(log_tokens@) is Ok,
            r matches Err(e) ==> (if token_spec(token@) is Err {
                token_spec(token@) == Err::<Token, Error>(e)
            } else {
                tokens_spec(log_tokens@) == Err::<Seq<Token>, Error>(e)
            }),
            r matches Ok(map) ==> {
                &&& token_spec(token@) == Ok::<Token, Error>(map.token)
                &&& tokens_spec(log_tokens@) == Ok::<Seq<Token>, Error>(map.log_tokens@)
                &&& map.filename == filename
                &&& map.category == category
            },
    {
        let token = Token::from_str(token)?;
        let log_tokens = decode_tokens(log_tokens)?;
        Ok(MapRecord { token, log_tokens, filename, category })
    }
}

impl Sample {
    /// What the fields of an entry decode to as a sample.
    pub open spec fn decode_spec(
        token: Seq<char>,
        next: Seq<char>,
        prev: Seq<char>,
        scene_token: Seq<char>,
        timestamp: Timestamp,
    ) -> core::result::Result<Sample, Error> {
        match token_spec(token) {
            Err(e) => Err(e),
            Ok(token) => match opt_token_spec(next) {
                Err(e) => Err(e),
                Ok(next) => match opt_token_spec(prev) {
                    Err(e) => Err(e),
                    Ok(prev) => match token_spec(scene_token) {
                        Err(e) => Err(e),
                        Ok(scene_token) => Ok(Sample { token, next, prev, scene_token, timestamp }),
                    },
                },
            },
        }
    }

    /// Reads a sample from the fields of its entry. An empty `next` or `prev` stands for none.
    pub fn decode(token: &str, next: &str, prev: &str, scene_token: &str, timestamp: Timestamp) -> (r:
        core::result::Result<Sample, Error>)
        ensures
            r == Self::decode_spec(token@, next@, prev@, scene_token@, timestamp),
    {
        let token = Token::from_str(token)?;
        let next = opt_token_from_str(next)?;
        let prev = opt_token_from_str(prev)?;
        let scene_token = Token::from_str(scene_token)?;
        Ok(Sample { token, next, prev, scene_token, timestamp })
    }
}

/// The tokens of a sample annotation, as they are decoded from its entry.
pub struct AnnotationTokens {
    pub token: Token,
    pub sample_token: Token,
    pub instance_token: Token,
    pub attribute_tokens: Seq<Token>,
    pub visibility_token: Option<VisibilityToken>,
    pub prev: Option<Token>,
    pub next: Option<Token>,
}

impl SampleAnnotation {
    /// What the tokens of a sample annotation decode to.
    pub open spec fn tokens_spec(
        token: Seq<char>,
        sample_token: Seq<char>,
        instance_token: Seq<char>,
        attribute_tokens: Seq<String>,
        visibility_token: Option<&str>,
        prev: Seq<char>,
        next: Seq<char>,
    ) -> core::result::Result<AnnotationTokens, Error> {
        match token_spec(token) {
            Err(e) => Err(e),
            Ok(token) => match token_spec(sample_token) {
                Err(e) => Err(e),
                Ok(sample_token) => match token_spec(instance_token) {
                    Err(e) => Err(e),
                    Ok(instance_token) => match tokens_spec(attribute_tokens) {
                        Err(e) => Err(e),
                        Ok(attribute_tokens) => match opt_visibility_token_spec(visibility_token) {
                            Err(e) => Err(e),
                            Ok(visibility_token) => match opt_token_spec(prev) {
                                Err(e) => Err(e),
                                Ok(prev) => match opt_token_spec(next) {
                                    Err(e) => Err(e),
                                    Ok(next) => Ok(
                                        AnnotationTokens {
                                            token,
                                            sample_token,
                                            instance_token,
                                            attribute_tokens,
                                            visibility_token,
                                            prev,
                                            next,
                                        },
                                    ),
                                },
                            },
                        },
                    },
                },
            },
        }
    }

    /// Reads a sample annotation from the fields of its entry. An empty
    /// `prev` or `next` stands for none.
    pub fn decode(
        token: &str,
        num_lidar_pts: isize,
        num_radar_pts: isize,
        size: [Float64; 3],
        rotation: [Float64; 4],
        translation: [Float64; 3],
        sample_token: &str,
        instance_token: &str,
        attribute_tokens: &Vec<String>,
        visibility_token: Option<&str>,
        prev: &str,
        next: &str,
    ) -> (r: core::result::Result<SampleAnnotation, Error>)
        ensures
            match Self::tokens_spec(
                token@,
                sample_token@,
                instance_token@,
                attribute_tokens@,
                visibility_token,
                prev@,
                next@,
            ) {
                Err(e) => r matches Err(err) && err == e,
                Ok(tokens) => r matches Ok(annotation) && {
                    &&& annotation.token == tokens.token
                    &&& annotation.num_lidar_pts == num_lidar_pts
                    &&& annotation.num_radar_pts == num_radar_pts
                    &&& annotation.size == size
                    &&& annotation.rotation == rotation
                    &&& annotation.translation == translation
                    &&& annotation.sample_token == tokens.sample_token
                    &&& annotation.instance_token == tokens.instance_token
                    &&& annotation.attribute_tokens@ == tokens.attribute_tokens
                    &&& annotation.visibility_token == tokens.visibility_token
                    &&& annotation.prev == tokens.prev
                    &&& annotation.next == tokens.next
                },
            },
    {
        let token = Token::from_str(token)?;
        let sample_token = Token::from_str(sample_token)?;
        let instance_token = Token::from_str(instance_token)?;
        let attribute_tokens = decode_tokens(attribute_tokens)?;
        let visibility_token = decode_opt_visibility_token(visibility_token)?;
        let prev = opt_token_from_str(prev)?;
        let next = opt_token_from_str(next)?;
        Ok(
            SampleAnnotation {
                token,
                num_lidar_pts,
                num_radar_pts,
                size,
                rotation,
                translation,
                sample_token,
                instance_token,
                attribute_tokens,
                visibility_token,
                prev,
                next,
            },
        )
    }
}

impl SampleData {
    /// What the fields of an entry decode to as a sample data record.
    pub open spec fn decode_spec(
        token: Seq<char>,
        fileformat: Seq<char>,
        is_key_frame: bool,
        filename: String,
        timestamp: Timestamp,
        sample_token: Seq<char>,
        ego_pose_token: Seq<char>,
        calibrated_sensor_token: Seq<char>,
        prev: Seq<char>,
        next: Seq<char>,
    ) -> core::result::Result<SampleData, Error> {
        match token_spec(token) {
            Err(e) => Err(e),
            Ok(token) => match named(FileFormat::from_name_spec(fileformat)) {
                Err(e) => Err(e),
                Ok(fileformat) => match token_spec(sample_token) {
                    Err(e) => Err(e),
                    Ok(sample_token) => match token_spec(ego_pose_token) {
                        Err(e) => Err(e),
                        Ok(ego_pose_token) => match token_spec(calibrated_sensor_token) {
                            Err(e) => Err(e),
                            Ok(calibrated_sensor_token) => match opt_token_spec(prev) {
                                Err(e) => Err(e),
                                Ok(prev) => match opt_token_spec(next) {
                                    Err(e) => Err(e),
                                    Ok(next) => Ok(
                                        SampleData {
                                            token,
                                            fileformat,
                                            is_key_frame,
                                            filename,
                                            timestamp,
                                            sample_token,
                                            ego_pose_token,
                                            calibrated_sensor_token,
                                            prev,
                                            next,
                                        },
                                    ),
                                },
                            },
                        },
                    },
                },
            },
        }
    }

    /// Reads a sample data record from the fields of its entry. An empty
    /// `prev` or `next` stands for none.
    pub fn decode(
        token: &str,
        fileformat: &str,
        is_key_frame: bool,
        filename: String,
        timestamp: Timestamp,
        sample_token: &str,
        ego_pose_token: &str,
        calibrated_sensor_token: &str,
        prev: &str,
        next: &str,
    ) -> (r: core::result::Result<SampleData, Error>)
        ensures
            r == Self::decode_spec(
                token@,
                fileformat@,
                is_key_frame,
                filename,
                timestamp,
                sample_token@,
                ego_pose_token@,
                calibrated_sensor_token@,
                prev@,
                next@,
            ),
    {
        let token = Token::from_str(token)?;
        let fileformat = FileFormat::from_name(fileformat)?;
        let sample_token = Token::from_str(sample_token)?;
        let ego_pose_token = Token::from_str(ego_pose_token)?;
        let calibrated_sensor_token = Token::from_str(calibrated_sensor_token)?;
        let prev = opt_token_from_str(prev)?;
        let next = opt_token_from_str(next)?;
        Ok(
            SampleData {
                token,
                fileformat,
                is_key_frame,
                filename,
                timestamp,
                sample_token,
                ego_pose_token,
                calibrated_sensor_token,
                prev,
                next,
            },
        )
    }
}

impl Scene {
    /// What the fields of an entry decode to as a scene.
    pub open spec fn decode_spec(
        token: Seq<char>,
        name: String,
        description: String,
        log_token: Seq<char>,
        nbr_samples: usize,
        first_sample_token: Seq<char>,
        last_sample_token: Seq<char>,
    ) -> core::result::Result<Scene, Error> {
        match token_spec(token) {
            Err(e) => Err(e),
            Ok(token) => match token_spec(log_token) {
                Err(e) => Err(e),
                Ok(log_token) => match token_spec(first_sample_token) {
                    Err(e) => Err(e),
                    Ok(first_sample_token) => match token_spec(last_sample_token) {
                        Err(e) => Err(e),
                        Ok(last_sample_token) => Ok(
                            Scene {
                                token,
                                name,
                                description,
                                log_token,
                                nbr_samples,
                                first_sample_token,
                                last_sample_token,
                            },
                        ),
                    },
                },
            },
        }
    }

    /// Reads a scene from the fields of its entry.
    pub fn decode(
        token: &str,
        name: String,
        description: String,
        log_token: &str,
        nbr_samples: usize,
        first_sample_token: &str,
        last_sample_token: &str,
    ) -> (r: core::result::Result<Scene, Error>)
        ensures
            r == Self::decode_spec(
                token@,
                name,
                description,
                log_token@,
                nbr_samples,
                first_sample_token@,
                last_sample_token@,
            ),
    {
        let token = Token::from_str(token)?;
        let log_token = Token::from_str(log_token)?;
        let first_sample_token = Token::from_str(first_sample_token)?;
        let last_sample_token = Token::from_str(last_sample_token)?;
        Ok(Scene { token, name, description, log_token, nbr_samples, first_sample_token, last_sample_token })
    }
}

impl Sensor {
    /// What the fields of an entry decode to as a sensor.
    pub open spec fn decode_spec(token: Seq<char>, modality: Seq<char>, channel: Seq<char>) -> core::result::Result<
        Sensor,
        Error,
    > {
        match token_spec(token) {
            Err(e) => Err(e),
            Ok(token) => match named(Modality::from_name_spec(modality)) {
                Err(e) => Err(e),
                Ok(modality) => match named(Channel::from_name_spec(channel)) {
                    Err(e) => Err(e),
                    Ok(channel) => Ok(Sensor { token, modality, channel }),
                },
            },
        }
    }

    /// Reads a sensor from the fields of its entry.
    pub fn decode(token: &str, modality: &str, channel: &str) -> (r: core::result::Result<Sensor, Error>)
        ensures
            r == Self::decode_spec(token@, modality@, channel@),
    {
        let token = Token::from_str(token)?;
        let modality = Modality::from_name(modality)?;
        let channel = Channel::from_name(channel)?;
        Ok(Sensor { token, modality, channel })
    }
}

impl Visibility {
    /// What the fields of an entry decode to as a visibility record.
    pub open spec fn decode_spec(token: Seq<char>, level: Seq<char>, description: String) -> core::result::Result<
        Visibility,
        Error,
    > {
        match visibility_token_spec(token) {
            Err(e) => Err(e),
            Ok(token) => match named(VisibilityLevel::from_name_spec(level)) {
                Err(e) => Err(e),
                Ok(level) => Ok(Visibility { token, level, description }),
            },
        }
    }

    /// Reads a visibility record from the fields of its entry.
    pub fn decode(token: &str, level: &str, description: String) -> (r: core::result::Result<Visibility, Error>)
        ensures
            r == Self::decode_spec(token@, level@, description),
    {
        let token = VisibilityToken::from_str(token)?;
        let level = VisibilityLevel::from_name(level)?;
        Ok(Visibility { token, level, description })
    }
}

} // verus!
