//! The records of the thirteen tables and the encodings of their fields.

pub mod decode;
pub mod fields;
pub mod types;

pub use crate::token::{Token, VisibilityToken, TOKEN_LENGTH};
pub use decode::{decode_opt_visibility_token, decode_tokens};
pub use fields::{
    camera_intrinsic_from_rows, camera_intrinsic_to_rows, logfile_from_str, logfile_to_string,
    opt_token_from_str, opt_token_to_string,
};
pub use types::{
    Attribute, CalibratedSensor, Category, Channel, Date, EgoPose, FileFormat, Float64, Instance,
    Log, MapRecord, Modality, Sample, SampleAnnotation, SampleData, Scene, Sensor, Timestamp,
    Visibility, VisibilityLevel, WithToken,
};
