//! One record type for each table.

use crate::error::{Error, ParseFailure};
use crate::token::{Token, VisibilityToken};
use vstd::prelude::*;

verus! {

/// A number of 64 bits in binary floating point, carried as its bit pattern.
/// The library moves such numbers and never computes with them.
#[derive(Debug, Clone, Copy, PartialEq, Eq, Hash, Structural)]
pub struct Float64(pub u64);

/// A point in time: nanoseconds since the Unix epoch.
#[derive(Debug, Clone, Copy, PartialEq, Eq, Hash, Structural)]
pub struct Timestamp(pub u64);

/// A calendar date, as it stands in a log record.
#[derive(Debug, Clone, Copy, PartialEq, Eq, Hash, Structural)]
pub struct Date {
    pub year: i32,
    pub month: u32,
    pub day: u32,
}

/// A property that an annotated object may have at some moment, such as a vehicle being parked.
#[derive(Debug, Clone, PartialEq, Eq)]
pub struct Attribute {
    pub token: Token,
    pub description: String,
    pub name: String,
}

/// A sensor as it was mounted and calibrated on one vehicle. Only cameras have an intrinsic matrix.
#[derive(Debug, Clone, PartialEq, Eq)]
pub struct CalibratedSensor {
    pub token: Token,
    pub sensor_token: Token,
    pub rotation: [Float64; 4],
    pub camera_intrinsic: Option<[[Float64; 3]; 3]>,
    pub translation: [Float64; 3],
}

/// A class of objects, such as `vehicle.car`.
#[derive(Debug, Clone, PartialEq, Eq)]
pub struct Category {
    pub token: Token,
    pub description: String,
    pub name: String,
}

/// The pose of the vehicle at one moment.
#[derive(Debug, Clone, PartialEq, Eq)]
pub struct EgoPose {
    pub token: Token,
    pub timestamp: Timestamp,
    pub rotation: [Float64; 4],
    pub translation: [Float64; 3],
}

/// One object that is followed through a scene. Its annotations form a
/// chain, of which the record announces the length and both ends.
#[derive(Debug, Clone, PartialEq, Eq)]
pub struct Instance {
    pub token: Token,
    pub nbr_annotations: usize,
    pub category_token: Token,
    pub first_annotation_token: Token,
    pub last_annotation_token: Token,
}

/// The log of one drive, from which scenes were taken.
#[derive(Debug, Clone, PartialEq, Eq)]
pub struct Log {
    pub token: Token,
    pub date_captured: Date,
    pub location: String,
    pub vehicle: String,
    pub logfile: Option<String>,
}

/// A record of the map table.
#[derive(Debug, Clone, PartialEq, Eq)]
pub struct MapRecord {
    pub token: Token,
    pub log_tokens: Vec<Token>,
    pub filename: String,
    pub category: String,
}

/// A moment of a scene at which the sensors were read and the objects
/// annotated. The samples of a scene form a chain.
#[derive(Debug, Clone, PartialEq, Eq)]
pub struct Sample {
    pub token: Token,
    pub next: Option<Token>,
    pub prev: Option<Token>,
    pub scene_token: Token,
    pub timestamp: Timestamp,
}

/// The box around one instance at one sample. The annotations of an instance form a chain.
#[derive(Debug, Clone, PartialEq, Eq)]
pub struct SampleAnnotation {
    pub token: Token,
    pub num_lidar_pts: isize,
    pub num_radar_pts: isize,
    pub size: [Float64; 3],
    pub rotation: [Float64; 4],
    pub translation: [Float64; 3],
    pub sample_token: Token,
    pub instance_token: Token,
    pub attribute_tokens: Vec<Token>,
    pub visibility_token: Option<VisibilityToken>,
    pub prev: Option<Token>,
    pub next: Option<Token>,
}

/// One reading of one sensor, stored in a file. The readings of a sensor form a chain.
#[derive(Debug, Clone, PartialEq, Eq)]
pub struct SampleData {
    pub token: Token,
    pub fileformat: FileFormat,
    pub is_key_frame: bool,
    pub filename: String,
    pub timestamp: Timestamp,
    pub sample_token: Token,
    pub ego_pose_token: Token,
    pub calibrated_sensor_token: Token,
    pub prev: Option<Token>,
    pub next: Option<Token>,
}

/// A stretch of a drive. Its samples form a chain, of which the record
/// announces the length and both ends.
#[derive(Debug, Clone, PartialEq, Eq)]
pub struct Scene {
    pub token: Token,
    pub name: String,
    pub description: String,
    pub log_token: Token,
    pub nbr_samples: usize,
    pub first_sample_token: Token,
    pub last_sample_token: Token,
}

/// A kind of sensor on a kind of vehicle.
#[derive(Debug, Clone, PartialEq, Eq)]
pub struct Sensor {
    pub token: Token,
    pub modality: Modality,
    pub channel: Channel,
}

/// A level of visibility of an annotated object.
#[derive(Debug, Clone, PartialEq, Eq)]
pub struct Visibility {
    pub token: VisibilityToken,
    pub level: VisibilityLevel,
    pub description: String,
}

/// What a sensor measures with.
#[derive(Debug, Clone, Copy, PartialEq, Eq, Hash, Structural)]
pub enum Modality {
    Camera,
    Lidar,
    Radar,
}

/// The encoding of the file of a sample data record.
#[derive(Debug, Clone, Copy, PartialEq, Eq, Hash, Structural)]
pub enum FileFormat {
    Pcd,
    Jpg,
}

/// The fraction of an object that is visible, in percent.
#[derive(Debug, Clone, Copy, PartialEq, Eq, Hash, Structural)]
pub enum VisibilityLevel {
    V0_40,
    V40_60,
    V60_80,
    V80_100,
}

/// The place of a sensor on the vehicle.
#[derive(Debug, Clone, Copy, PartialEq, Eq, Hash, Structural)]
pub enum Channel {
    CamBack,
    CamBackLeft,
    CamBackRight,
    CamFront,
    CamFrontLeft,
    CamFrontRight,
    CamFrontZoomed,
    LidarTop,
    RadarFront,
    RadarFrontLeft,
    RadarFrontRight,
    RadarBackLeft,
    RadarBackRight,
}

/// A record that a token identifies.
pub trait WithToken {
    /// The token of the record.
    spec fn token_spec(&self) -> Token;

    fn token(&self) -> (token: Token)
        ensures
            token == self.token_spec(),
    ;
}

impl WithToken for Attribute {
    open spec fn token_spec(&self) -> Token {
        self.token
    }

    fn token(&self) -> Token {
        self.token
    }
}

impl WithToken for CalibratedSensor {
    open spec fn token_spec(&self) -> Token {
        self.token
    }

    fn token(&self) -> Token {
        self.token
    }
}

impl WithToken for Category {
    open spec fn token_spec(&self) -> Token {
        self.token
    }

    fn token(&self) -> Token {
        self.token
    }
}

impl WithToken for EgoPose {
    open spec fn token_spec(&self) -> Token {
        self.token
    }

    fn token(&self) -> Token {
        self.token
    }
}

impl WithToken for Instance {
    open spec fn token_spec(&self) -> Token {
        self.token
    }

    fn token(&self) -> Token {
        self.token
    }
}

impl WithToken for Log {
    open spec fn token_spec(&self) -> Token {
        self.token
    }

    fn token(&self) -> Token {
        self.token
    }
}

impl WithToken for MapRecord {
    open spec fn token_spec(&self) -> Token {
        self.token
    }

    fn token(&self) -> Token {
        self.token
    }
}

impl WithToken for Sample {
    open spec fn token_spec(&self) -> Token {
        self.token
    }

    fn token(&self) -> Token {
        self.token
    }
}

impl WithToken for SampleAnnotation {
    open spec fn token_spec(&self) -> Token {
        self.token
    }

    fn token(&self) -> Token {
        self.token
    }
}

impl WithToken for SampleData {
    open spec fn token_spec(&self) -> Token {
        self.token
    }

    fn token(&self) -> Token {
        self.token
    }
}

impl WithToken for Scene {
    open spec fn token_spec(&self) -> Token {
        self.token
    }

    fn token(&self) -> Token {
        self.token
    }
}

impl WithToken for Sensor {
    open spec fn token_spec(&self) -> Token {
        self.token
    }

    fn token(&self) -> Token {
        self.token
    }
}

/// What the reading of a name gives: the value that the name stands for,
/// or the refusal of an unknown name.
pub open spec fn named<T>(found: Option<T>) -> core::result::Result<T, Error> {
    match found {
        Some(value) => Ok(value),
        None => Err(Error::ParseError(ParseFailure::UnknownName)),
    }
}

/// Whether two texts hold the same characters.
pub fn same_text(a: &str, b: &str) -> (same: bool)
    ensures
        same == (a@ == b@),
{
    let left = a.to_owned();
    let right = b.to_owned();
    left == right
}

impl Timestamp {
    /// The whole seconds since the epoch.
    pub fn secs(&self) -> (secs: u64)
        ensures
            secs == self.0 / 1_000_000_000,
    {
        self.0 / 1_000_000_000
    }

    /// The nanoseconds past the last whole second.
    pub fn subsec_nanos(&self) -> (nanos: u32)
        ensures
            nanos == self.0 % 1_000_000_000,
    {
        (self.0 % 1_000_000_000) as u32
    }
}

impl Modality {
    /// The name of the modality in a file: lower case.
    pub open spec fn name_spec(self) -> Seq<char> {
        match self {
            Modality::Camera => "camera"@,
            Modality::Lidar => "lidar"@,
            Modality::Radar => "radar"@,
        }
    }

    /// The modality that a name stands for, if any.
    pub open spec fn from_name_spec(name: Seq<char>) -> Option<Modality> {
        if name == "camera"@ {
            Some(Modality::Camera)
        } else if name == "lidar"@ {
            Some(Modality::Lidar)
        } else if name == "radar"@ {
            Some(Modality::Radar)
        } else {
            None
        }
    }

    /// The name, as it stands in a file.
    pub fn name(&self) -> (name: &'static str)
        ensures
            name@ == self.name_spec(),
    {
        match self {
            Modality::Camera => "camera",
            Modality::Lidar => "lidar",
            Modality::Radar => "radar",
        }
    }

    /// Reads the name that stands in a file. Case matters.
    pub fn from_name(name: &str) -> (r: core::result::Result<Modality, Error>)
        ensures
            r == named(Modality::from_name_spec(name@)),
    {
        if same_text(name, "camera") {
            Ok(Modality::Camera)
        } else if same_text(name, "lidar") {
            Ok(Modality::Lidar)
        } else if same_text(name, "radar") {
            Ok(Modality::Radar)
        } else {
            Err(Error::ParseError(ParseFailure::UnknownName))
        }
    }
}

impl FileFormat {
    /// The name of the format in a file: lower case.
    pub open spec fn name_spec(self) -> Seq<char> {
        match self {
            FileFormat::Pcd => "pcd"@,
            FileFormat::Jpg => "jpg"@,
        }
    }

    /// The format that a name stands for, if any.
    pub open spec fn from_name_spec(name: Seq<char>) -> Option<FileFormat> {
        if name == "pcd"@ {
            Some(FileFormat::Pcd)
        } else if name == "jpg"@ {
            Some(FileFormat::Jpg)
        } else {
            None
        }
    }

    /// The name, as it stands in a file.
    pub fn name(&self) -> (name: &'static str)
        ensures
            name@ == self.name_spec(),
    {
        match self {
            FileFormat::Pcd => "pcd",
            FileFormat::Jpg => "jpg",
        }
    }

    /// Reads the name that stands in a file. Case matters.
    pub fn from_name(name: &str) -> (r: core::result::Result<FileFormat, Error>)
        ensures
            r == named(FileFormat::from_name_spec(name@)),
    {
        if same_text(name, "pcd") {
            Ok(FileFormat::Pcd)
        } else if same_text(name, "jpg") {
            Ok(FileFormat::Jpg)
        } else {
            Err(Error::ParseError(ParseFailure::UnknownName))
        }
    }
}

impl VisibilityLevel {
    /// The name of the level in a file: lower case, with a hyphen between the bounds.
    pub open spec fn name_spec(self) -> Seq<char> {
        match self {
            VisibilityLevel::V0_40 => "v0-40"@,
            VisibilityLevel::V40_60 => "v40-60"@,
            VisibilityLevel::V60_80 => "v60-80"@,
            VisibilityLevel::V80_100 => "v80-100"@,
        }
    }

    /// The level that a name stands for, if any.
    pub open spec fn from_name_spec(name: Seq<char>) -> Option<VisibilityLevel> {
        if name == "v0-40"@ {
            Some(VisibilityLevel::V0_40)
        } else if name == "v40-60"@ {
            Some(VisibilityLevel::V40_60)
        } else if name == "v60-80"@ {
            Some(VisibilityLevel::V60_80)
        } else if name == "v80-100"@ {
            Some(VisibilityLevel::V80_100)
        } else {
            None
        }
    }

    /// The name, as it stands in a file.
    pub fn name(&self) -> (name: &'static str)
        ensures
            name@ == self.name_spec(),
    {
        match self {
            VisibilityLevel::V0_40 => "v0-40",
            VisibilityLevel::V40_60 => "v40-60",
            VisibilityLevel::V60_80 => "v60-80",
            VisibilityLevel::V80_100 => "v80-100",
        }
    }

    /// Reads the name that stands in a file. Case matters.
    pub fn from_name(name: &str) -> (r: core::result::Result<VisibilityLevel, Error>)
        ensures
            r == named(VisibilityLevel::from_name_spec(name@)),
    {
        if same_text(name, "v0-40") {
            Ok(VisibilityLevel::V0_40)
        } else if same_text(name, "v40-60") {
            Ok(VisibilityLevel::V40_60)
        } else if same_text(name, "v60-80") {
            Ok(VisibilityLevel::V60_80)
        } else if same_text(name, "v80-100") {
            Ok(VisibilityLevel::V80_100)
        } else {
            Err(Error::ParseError(ParseFailure::UnknownName))
        }
    }
}

impl Channel {
    /// The name of the channel in a file: upper case, with underscores between the words.
    pub open spec fn name_spec(self) -> Seq<char> {
        match self {
            Channel::CamBack => "CAM_BACK"@,
            Channel::CamBackLeft => "CAM_BACK_LEFT"@,
            Channel::CamBackRight => "CAM_BACK_RIGHT"@,
            Channel::CamFront => "CAM_FRONT"@,
            Channel::CamFrontLeft => "CAM_FRONT_LEFT"@,
            Channel::CamFrontRight => "CAM_FRONT_RIGHT"@,
            Channel::CamFrontZoomed => "CAM_FRONT_ZOOMED"@,
            Channel::LidarTop => "LIDAR_TOP"@,
            Channel::RadarFront => "RADAR_FRONT"@,
            Channel::RadarFrontLeft => "RADAR_FRONT_LEFT"@,
            Channel::RadarFrontRight => "RADAR_FRONT_RIGHT"@,
            Channel::RadarBackLeft => "RADAR_BACK_LEFT"@,
            Channel::RadarBackRight => "RADAR_BACK_RIGHT"@,
        }
    }

    /// The channel that a name stands for, if any.
    pub open spec fn from_name_spec(name: Seq<char>) -> Option<Channel> {
        if name == "CAM_BACK"@ {
            Some(Channel::CamBack)
        } else if name == "CAM_BACK_LEFT"@ {
            Some(Channel::CamBackLeft)
        } else if name == "CAM_BACK_RIGHT"@ {
            Some(Channel::CamBackRight)
        } else if name == "CAM_FRONT"@ {
            Some(Channel::CamFront)
        } else if name == "CAM_FRONT_LEFT"@ {
            Some(Channel::CamFrontLeft)
        } else if name == "CAM_FRONT_RIGHT"@ {
            Some(Channel::CamFrontRight)
        } else if name == "CAM_FRONT_ZOOMED"@ {
            Some(Channel::CamFrontZoomed)
        } else if name == "LIDAR_TOP"@ {
            Some(Channel::LidarTop)
        } else if name == "RADAR_FRONT"@ {
            Some(Channel::RadarFront)
        } else if name == "RADAR_FRONT_LEFT"@ {
            Some(Channel::RadarFrontLeft)
        } else if name == "RADAR_FRONT_RIGHT"@ {
            Some(Channel::RadarFrontRight)
        } else if name == "RADAR_BACK_LEFT"@ {
            Some(Channel::RadarBackLeft)
        } else if name == "RADAR_BACK_RIGHT"@ {
            Some(Channel::RadarBackRight)
        } else {
            None
        }
    }

    /// The name, as it stands in a file.
    pub fn name(&self) -> (name: &'static str)
        ensures
            name@ == self.name_spec(),
    {
        match self {
            Channel::CamBack => "CAM_BACK",
            Channel::CamBackLeft => "CAM_BACK_LEFT",
            Channel::CamBackRight => "CAM_BACK_RIGHT",
            Channel::CamFront => "CAM_FRONT",
            Channel::CamFrontLeft => "CAM_FRONT_LEFT",
            Channel::CamFrontRight => "CAM_FRONT_RIGHT",
            Channel::CamFrontZoomed => "CAM_FRONT_ZOOMED",
            Channel::LidarTop => "LIDAR_TOP",
            Channel::RadarFront => "RADAR_FRONT",
            Channel::RadarFrontLeft => "RADAR_FRONT_LEFT",
            Channel::RadarFrontRight => "RADAR_FRONT_RIGHT",
            Channel::RadarBackLeft => "RADAR_BACK_LEFT",
            Channel::RadarBackRight => "RADAR_BACK_RIGHT",
        }
    }

    /// Reads the name that stands in a file. Case matters.
    pub fn from_name(name: &str) -> (r: core::result::Result<Channel, Error>)
        ensures
            r == named(Channel::from_name_spec(name@)),
    {
        if same_text(name, "CAM_BACK") {
            Ok(Channel::CamBack)
        } else if same_text(name, "CAM_BACK_LEFT") {
            Ok(Channel::CamBackLeft)
        } else if same_text(name, "CAM_BACK_RIGHT") {
            Ok(Channel::CamBackRight)
        } else if same_text(name, "CAM_FRONT") {
            Ok(Channel::CamFront)
        } else if same_text(name, "CAM_FRONT_LEFT") {
            Ok(Channel::CamFrontLeft)
        } else if same_text(name, "CAM_FRONT_RIGHT") {
            Ok(Channel::CamFrontRight)
        } else if same_text(name, "CAM_FRONT_ZOOMED") {
            Ok(Channel::CamFrontZoomed)
        } else if same_text(name, "LIDAR_TOP") {
            Ok(Channel::LidarTop)
        } else if same_text(name, "RADAR_FRONT") {
            Ok(Channel::RadarFront)
        } else if same_text(name, "RADAR_FRONT_LEFT") {
            Ok(Channel::RadarFrontLeft)
        } else if same_text(name, "RADAR_FRONT_RIGHT") {
            Ok(Channel::RadarFrontRight)
        } else if same_text(name, "RADAR_BACK_LEFT") {
            Ok(Channel::RadarBackLeft)
        } else if same_text(name, "RADAR_BACK_RIGHT") {
            Ok(Channel::RadarBackRight)
        } else {
            Err(Error::ParseError(ParseFailure::UnknownName))
        }
    }
}

} // verus!
