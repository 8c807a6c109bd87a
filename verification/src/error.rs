//! Error values of the library.

use crate::token::{be_bytes, decimal_text, hex_text, write_decimal, Token};
use vstd::prelude::*;
use vstd::string::StringExecFns;

verus! {

/// The thirteen tables of a dataset.
#[derive(Debug, Clone, Copy, PartialEq, Eq, Hash, Structural)]
pub enum Table {
    Attribute,
    CalibratedSensor,
    Category,
    EgoPose,
    Instance,
    Log,
    MapRecord,
    Sample,
    SampleAnnotation,
    SampleData,
    Scene,
    Sensor,
    Visibility,
}

/// The fields of the records that hold a token of another record.
#[derive(Debug, Clone, Copy, PartialEq, Eq, Hash, Structural)]
pub enum Reference {
    CalibratedSensorSensor,
    MapLog,
    InstanceFirstAnnotation,
    InstanceLastAnnotation,
    InstanceCategory,
    SceneLog,
    SceneFirstSample,
    SceneLastSample,
    SampleScene,
    SamplePrev,
    SampleNext,
    AnnotationSample,
    AnnotationInstance,
    AnnotationAttribute,
    AnnotationVisibility,
    AnnotationPrev,
    AnnotationNext,
    DataSample,
    DataEgoPose,
    DataCalibratedSensor,
    DataPrev,
    DataNext,
}

impl Reference {
    /// The table in which the field's token is looked up.
    pub open spec fn target(self) -> Table {
        match self {
            Reference::CalibratedSensorSensor => Table::Sensor,
            Reference::MapLog => Table::Log,
            Reference::InstanceFirstAnnotation => Table::SampleAnnotation,
            Reference::InstanceLastAnnotation => Table::SampleAnnotation,
            Reference::InstanceCategory => Table::Category,
            Reference::SceneLog => Table::Log,
            Reference::SceneFirstSample => Table::Sample,
            Reference::SceneLastSample => Table::Sample,
            Reference::SampleScene => Table::Scene,
            Reference::SamplePrev => Table::Sample,
            Reference::SampleNext => Table::Sample,
            Reference::AnnotationSample => Table::Sample,
            Reference::AnnotationInstance => Table::Instance,
            Reference::AnnotationAttribute => Table::Attribute,
            Reference::AnnotationVisibility => Table::Visibility,
            Reference::AnnotationPrev => Table::SampleAnnotation,
            Reference::AnnotationNext => Table::SampleAnnotation,
            Reference::DataSample => Table::Sample,
            Reference::DataEgoPose => Table::EgoPose,
            Reference::DataCalibratedSensor => Table::CalibratedSensor,
            Reference::DataPrev => Table::SampleData,
            Reference::DataNext => Table::SampleData,
        }
    }

    /// The table whose records hold the field.
    pub open spec fn holder(self) -> Table {
        match self {
            Reference::CalibratedSensorSensor => Table::CalibratedSensor,
            Reference::MapLog => Table::MapRecord,
            Reference::InstanceFirstAnnotation => Table::Instance,
            Reference::InstanceLastAnnotation => Table::Instance,
            Reference::InstanceCategory => Table::Instance,
            Reference::SceneLog => Table::Scene,
            Reference::SceneFirstSample => Table::Scene,
            Reference::SceneLastSample => Table::Scene,
            Reference::SampleScene => Table::Sample,
            Reference::SamplePrev => Table::Sample,
            Reference::SampleNext => Table::Sample,
            Reference::AnnotationSample => Table::SampleAnnotation,
            Reference::AnnotationInstance => Table::SampleAnnotation,
            Reference::AnnotationAttribute => Table::SampleAnnotation,
            Reference::AnnotationVisibility => Table::SampleAnnotation,
            Reference::AnnotationPrev => Table::SampleAnnotation,
            Reference::AnnotationNext => Table::SampleAnnotation,
            Reference::DataSample => Table::SampleData,
            Reference::DataEgoPose => Table::SampleData,
            Reference::DataCalibratedSensor => Table::SampleData,
            Reference::DataPrev => Table::SampleData,
            Reference::DataNext => Table::SampleData,
        }
    }
}

/// Why a text was refused by one of the field decoders.
#[derive(Debug, Clone, Copy, PartialEq, Eq, Hash, Structural)]
pub enum ParseFailure {
    /// The text of a token has an odd number of bytes, so that it is not made of pairs of digits.
    OddLength,
    /// The byte at `index` of the text of a token, which stands for the character `c`, is no
    /// hexadecimal digit.
    InvalidHexCharacter { c: char, index: usize },
    /// The text of a token does not have the length of the place it is decoded into.
    InvalidStringLength,
    /// The text is hexadecimal, but stands for `found` digits where `expected` are needed.
    InvalidLength { expected: usize, found: usize },
    /// The text is not an unsigned decimal number of 32 bits.
    InvalidNumber,
    /// The text is none of the names of the enumeration.
    UnknownName,
    /// Row `row` of a camera matrix holds `found` numbers where three are needed.
    InvalidRowLength { row: usize, found: usize },
    /// A camera matrix has `found` rows, which is neither none nor three.
    InvalidRowCount { found: usize },
}

/// The rule that a dataset breaks.
#[derive(Debug, Clone, Copy, PartialEq, Eq, Hash, Structural)]
pub enum Corruption {
    /// The record `holder` holds `token` in `field`, and the target table has no such record.
    /// For `Reference::AnnotationVisibility`, `token` is the number of the visibility token.
    DanglingToken { field: Reference, holder: u128, token: u128 },
    /// In `table`, the record `to` names `from` as its `prev`, but `from` does not name `to` as its `next`.
    UnmatchedPrev { table: Table, from: u128, to: u128 },
    /// In `table`, the record `from` names `to` as its `next`, but `to` does not name `from` as its `prev`.
    UnmatchedNext { table: Table, from: u128, to: u128 },
    /// The chain of the record `owner` of `table` (an instance or a scene) does not have the
    /// declared length: it has `found` records, or it runs in a circle and has no end.
    ChainLength { table: Table, owner: u128, declared: usize, found: Option<usize> },
    /// The chain of the record `owner` of `table` has the declared length, but ends in `found`
    /// where the record announces `last`.
    ChainEnd { table: Table, owner: u128, last: u128, found: u128 },
    /// The record `owner` of `table` (an instance or a scene) announces `first` as the first
    /// record of its chain, but `first` names `prev` as the record before it.
    ChainHead { table: Table, owner: u128, first: u128, prev: u128 },
    /// The record `owner` of `table` (an instance or a scene) announces `last` as the last
    /// record of its chain, but `last` names `next` as the record after it.
    ChainTail { table: Table, owner: u128, last: u128, next: u128 },
    /// The record `head` of `table` names no record before it, but no instance (for an
    /// annotation) or scene (for a sample) announces it as the first record of its chain.
    UnownedHead { table: Table, head: u128 },
    /// The record `tail` of `table` names no record after it, but no instance (for an
    /// annotation) or scene (for a sample) announces it as the last record of its chain.
    UnownedTail { table: Table, tail: u128 },
    /// The records `owner` and `other` of `table` (instances or scenes) both announce
    /// `first` as the first record of their chain.
    SharedHead { table: Table, owner: u128, other: u128, first: u128 },
    /// The records `owner` and `other` of `table` (instances or scenes) both announce
    /// `last` as the last record of their chain.
    SharedTail { table: Table, owner: u128, other: u128, last: u128 },
}

/// The errors of the library.
#[derive(Debug, Clone, Copy, PartialEq, Eq, Hash, Structural)]
pub enum Error {
    /// The library found one of its own invariants broken.
    InternalBug,
    /// The tables break a rule of the dataset format.
    CorruptedDataset(Corruption),
    /// A field's text does not follow its encoding.
    ParseError(ParseFailure),
    /// A payload file of `size` bytes is not made of whole units of `unit` bytes.
    CorruptedFile { size: usize, unit: usize },
}

pub type Result<T> = core::result::Result<T, Error>;

impl Table {
    /// The name of the table in a message.
    pub open spec fn name_spec(self) -> Seq<char> {
        match self {
            Table::Attribute => "attribute"@,
            Table::CalibratedSensor => "calibrated sensor"@,
            Table::Category => "category"@,
            Table::EgoPose => "ego pose"@,
            Table::Instance => "instance"@,
            Table::Log => "log"@,
            Table::MapRecord => "map"@,
            Table::Sample => "sample"@,
            Table::SampleAnnotation => "sample annotation"@,
            Table::SampleData => "sample data"@,
            Table::Scene => "scene"@,
            Table::Sensor => "sensor"@,
            Table::Visibility => "visibility"@,
        }
    }

    /// The name of the table in a message.
    pub fn name(&self) -> (name: &'static str)
        ensures
            name@ == self.name_spec(),
    {
        match self {
            Table::Attribute => "attribute",
            Table::CalibratedSensor => "calibrated sensor",
            Table::Category => "category",
            Table::EgoPose => "ego pose",
            Table::Instance => "instance",
            Table::Log => "log",
            Table::MapRecord => "map",
            Table::Sample => "sample",
            Table::SampleAnnotation => "sample annotation",
            Table::SampleData => "sample data",
            Table::Scene => "scene",
            Table::Sensor => "sensor",
            Table::Visibility => "visibility",
        }
    }
}

/// The text of a token in a message: hexadecimal, or decimal for a visibility token.
pub open spec fn token_text(table: Table, token: u128) -> Seq<char> {
    if table == Table::Visibility {
        decimal_text((token as u64) as nat)
    } else {
        hex_text(be_bytes(token))
    }
}

/// Writes a token for a message.
fn write_token(table: Table, token: u128) -> (text: String)
    ensures
        text@ == token_text(table, token),
{
    match table {
        Table::Visibility => write_decimal(#[verifier::truncate] (token as u64)),
        _ => Token(token).to_string(),
    }
}

impl Reference {
    /// The table in which the field's token is looked up.
    pub fn target_table(&self) -> (table: Table)
        ensures
            table == self.target(),
    {
        match self {
            Reference::CalibratedSensorSensor => Table::Sensor,
            Reference::MapLog => Table::Log,
            Reference::InstanceFirstAnnotation => Table::SampleAnnotation,
            Reference::InstanceLastAnnotation => Table::SampleAnnotation,
            Reference::InstanceCategory => Table::Category,
            Reference::SceneLog => Table::Log,
            Reference::SceneFirstSample => Table::Sample,
            Reference::SceneLastSample => Table::Sample,
            Reference::SampleScene => Table::Scene,
            Reference::SamplePrev => Table::Sample,
            Reference::SampleNext => Table::Sample,
            Reference::AnnotationSample => Table::Sample,
            Reference::AnnotationInstance => Table::Instance,
            Reference::AnnotationAttribute => Table::Attribute,
            Reference::AnnotationVisibility => Table::Visibility,
            Reference::AnnotationPrev => Table::SampleAnnotation,
            Reference::AnnotationNext => Table::SampleAnnotation,
            Reference::DataSample => Table::Sample,
            Reference::DataEgoPose => Table::EgoPose,
            Reference::DataCalibratedSensor => Table::CalibratedSensor,
            Reference::DataPrev => Table::SampleData,
            Reference::DataNext => Table::SampleData,
        }
    }

    /// The table whose records hold the field.
    pub fn holder_table(&self) -> (table: Table)
        ensures
            table == self.holder(),
    {
        match self {
            Reference::CalibratedSensorSensor => Table::CalibratedSensor,
            Reference::MapLog => Table::MapRecord,
            Reference::InstanceFirstAnnotation => Table::Instance,
            Reference::InstanceLastAnnotation => Table::Instance,
            Reference::InstanceCategory => Table::Instance,
            Reference::SceneLog => Table::Scene,
            Reference::SceneFirstSample => Table::Scene,
            Reference::SceneLastSample => Table::Scene,
            Reference::SampleScene => Table::Sample,
            Reference::SamplePrev => Table::Sample,
            Reference::SampleNext => Table::Sample,
            Reference::AnnotationSample => Table::SampleAnnotation,
            Reference::AnnotationInstance => Table::SampleAnnotation,
            Reference::AnnotationAttribute => Table::SampleAnnotation,
            Reference::AnnotationVisibility => Table::SampleAnnotation,
            Reference::AnnotationPrev => Table::SampleAnnotation,
            Reference::AnnotationNext => Table::SampleAnnotation,
            Reference::DataSample => Table::SampleData,
            Reference::DataEgoPose => Table::SampleData,
            Reference::DataCalibratedSensor => Table::SampleData,
            Reference::DataPrev => Table::SampleData,
            Reference::DataNext => Table::SampleData,
        }
    }
}

impl ParseFailure {
    /// The message of the failure.
    pub open spec fn message(self) -> Seq<char> {
        match self {
            ParseFailure::OddLength => "cannot decode token: odd number of digits"@,
            ParseFailure::InvalidHexCharacter { c, index } => "cannot decode token: invalid character with code "@
                + decimal_text(c as nat) + " at position "@ + decimal_text(index as nat),
            ParseFailure::InvalidStringLength => "cannot decode token: invalid string length"@,
            ParseFailure::InvalidLength { expected, found } => "invalid length: expected length "@
                + decimal_text(expected as nat) + ", but found "@ + decimal_text(found as nat),
            ParseFailure::InvalidNumber => "invalid visibility token: not an unsigned decimal number of 32 bits"@,
            ParseFailure::UnknownName => "unknown name"@,
            ParseFailure::InvalidRowLength { row, found } => "invalid length "@ + decimal_text(found as nat)
                + " of row "@ + decimal_text(row as nat) + ", expected a row of 3 numbers"@,
            ParseFailure::InvalidRowCount { found } => "invalid length "@ + decimal_text(found as nat)
                + ", expected an empty array or a 3x3 two-dimensional array"@,
        }
    }

    /// Writes the message of the failure.
    pub fn to_string(&self) -> (text: String)
        ensures
            text@ == self.message(),
    {
        match self {
            ParseFailure::OddLength => String::from_str("cannot decode token: odd number of digits"),
            ParseFailure::InvalidHexCharacter { c, index } => String::from_str(
                "cannot decode token: invalid character with code ",
            ).concat(write_decimal(*c as u64).as_str()).concat(" at position ").concat(
                write_decimal(*index as u64).as_str(),
            ),
            ParseFailure::InvalidStringLength => String::from_str("cannot decode token: invalid string length"),
            ParseFailure::InvalidLength { expected, found } => String::from_str(
                "invalid length: expected length ",
            ).concat(write_decimal(*expected as u64).as_str()).concat(", but found ").concat(
                write_decimal(*found as u64).as_str(),
            ),
            ParseFailure::InvalidNumber => String::from_str(
                "invalid visibility token: not an unsigned decimal number of 32 bits",
            ),
            ParseFailure::UnknownName => String::from_str("unknown name"),
            ParseFailure::InvalidRowLength { row, found } => String::from_str("invalid length ").concat(
                write_decimal(*found as u64).as_str(),
            ).concat(" of row ").concat(write_decimal(*row as u64).as_str()).concat(
                ", expected a row of 3 numbers",
            ),
            ParseFailure::InvalidRowCount { found } => String::from_str("invalid length ").concat(
                write_decimal(*found as u64).as_str(),
            ).concat(", expected an empty array or a 3x3 two-dimensional array"),
        }
    }
}

impl Corruption {
    /// The message of the corruption: the rule that is broken and the tokens that break it.
    pub open spec fn message(self) -> Seq<char> {
        match self {
            Corruption::DanglingToken { field, holder, token } => "the token "@ + token_text(field.target(), token)
                + " of the "@ + field.holder().name_spec() + " "@ + token_text(field.holder(), holder)
                + " does not refer to any "@ + field.target().name_spec(),
            Corruption::UnmatchedPrev { table, from, to } => "the "@ + table.name_spec() + " "@ + token_text(
                table,
                to,
            ) + " names "@ + token_text(table, from) + " as its prev, which does not name it as its next"@,
            Corruption::UnmatchedNext { table, from, to } => "the "@ + table.name_spec() + " "@ + token_text(
                table,
                from,
            ) + " names "@ + token_text(table, to) + " as its next, which does not name it as its prev"@,
            Corruption::ChainLength { table, owner, declared, found } => "the "@ + table.name_spec()
                + " with token "@ + token_text(table, owner) + " assures a chain of "@ + decimal_text(
                declared as nat,
            ) + " records, but in fact "@ + (match found {
                Some(count) => decimal_text(count as nat),
                None => "its chain does not end"@,
            }),
            Corruption::ChainEnd { table, owner, last, found } => "the "@ + table.name_spec() + " with token "@
                + token_text(table, owner) + " assures the last token "@ + hex_text(be_bytes(last))
                + ", but in fact "@ + hex_text(be_bytes(found)),
            Corruption::ChainHead { table, owner, first, prev } => "the "@ + table.name_spec() + " with token "@
                + token_text(table, owner) + " assures the first token "@ + hex_text(be_bytes(first))
                + ", which names "@ + hex_text(be_bytes(prev)) + " as its prev"@,
            Corruption::ChainTail { table, owner, last, next } => "the "@ + table.name_spec() + " with token "@
                + token_text(table, owner) + " assures the last token "@ + hex_text(be_bytes(last))
                + ", which names "@ + hex_text(be_bytes(next)) + " as its next"@,
            Corruption::UnownedHead { table, head } => "the "@ + table.name_spec() + " "@ + token_text(
                table,
                head,
            ) + " names no prev, but is the first token of no chain"@,
            Corruption::UnownedTail { table, tail } => "the "@ + table.name_spec() + " "@ + token_text(
                table,
                tail,
            ) + " names no next, but is the last token of no chain"@,
            Corruption::SharedHead { table, owner, other, first } => "the "@ + table.name_spec() + " with token "@
                + token_text(table, owner) + " and the one with token "@ + token_text(table, other)
                + " assure the same first token "@ + hex_text(be_bytes(first)),
            Corruption::SharedTail { table, owner, other, last } => "the "@ + table.name_spec() + " with token "@
                + token_text(table, owner) + " and the one with token "@ + token_text(table, other)
                + " assure the same last token "@ + hex_text(be_bytes(last)),
        }
    }

    /// Writes the message of the corruption.
    pub fn to_string(&self) -> (text: String)
        ensures
            text@ == self.message(),
    {
        match self {
            Corruption::DanglingToken { field, holder, token } => {
                let target = field.target_table();
                let source = field.holder_table();
                String::from_str("the token ").concat(write_token(target, *token).as_str()).concat(
                    " of the ",
                ).concat(source.name()).concat(" ").concat(write_token(source, *holder).as_str()).concat(
                    " does not refer to any ",
                ).concat(target.name())
            },
            Corruption::UnmatchedPrev { table, from, to } => String::from_str("the ").concat(
                table.name(),
            ).concat(" ").concat(write_token(*table, *to).as_str()).concat(" names ").concat(
                write_token(*table, *from).as_str(),
            ).concat(" as its prev, which does not name it as its next"),
            Corruption::UnmatchedNext { table, from, to } => String::from_str("the ").concat(
                table.name(),
            ).concat(" ").concat(write_token(*table, *from).as_str()).concat(" names ").concat(
                write_token(*table, *to).as_str(),
            ).concat(" as its next, which does not name it as its prev"),
            Corruption::ChainLength { table, owner, declared, found } => {
                let counted = match found {
                    Some(count) => write_decimal(*count as u64),
                    None => String::from_str("its chain does not end"),
                };
                String::from_str("the ").concat(table.name()).concat(" with token ").concat(
                    write_token(*table, *owner).as_str(),
                ).concat(" assures a chain of ").concat(write_decimal(*declared as u64).as_str()).concat(
                    " records, but in fact ",
                ).concat(counted.as_str())
            },
            Corruption::ChainEnd { table, owner, last, found } => String::from_str("the ").concat(
                table.name(),
            ).concat(" with token ").concat(write_token(*table, *owner).as_str()).concat(
                " assures the last token ",
            ).concat(Token(*last).to_string().as_str()).concat(", but in fact ").concat(
                Token(*found).to_string().as_str(),
            ),
            Corruption::ChainHead { table, owner, first, prev } => String::from_str("the ").concat(
                table.name(),
            ).concat(" with token ").concat(write_token(*table, *owner).as_str()).concat(
                " assures the first token ",
            ).concat(Token(*first).to_string().as_str()).concat(", which names ").concat(
                Token(*prev).to_string().as_str(),
            ).concat(" as its prev"),
            Corruption::ChainTail { table, owner, last, next } => String::from_str("the ").concat(
                table.name(),
            ).concat(" with token ").concat(write_token(*table, *owner).as_str()).concat(
                " assures the last token ",
            ).concat(Token(*last).to_string().as_str()).concat(", which names ").concat(
                Token(*next).to_string().as_str(),
            ).concat(" as its next"),
            Corruption::UnownedHead { table, head } => String::from_str("the ").concat(table.name()).concat(
                " ",
            ).concat(write_token(*table, *head).as_str()).concat(
                " names no prev, but is the first token of no chain",
            ),
            Corruption::UnownedTail { table, tail } => String::from_str("the ").concat(table.name()).concat(
                " ",
            ).concat(write_token(*table, *tail).as_str()).concat(
                " names no next, but is the last token of no chain",
            ),
            Corruption::SharedHead { table, owner, other, first } => String::from_str("the ").concat(
                table.name(),
            ).concat(" with token ").concat(write_token(*table, *owner).as_str()).concat(
                " and the one with token ",
            ).concat(write_token(*table, *other).as_str()).concat(" assure the same first token ").concat(
                Token(*first).to_string().as_str(),
            ),
            Corruption::SharedTail { table, owner, other, last } => String::from_str("the ").concat(
                table.name(),
            ).concat(" with token ").concat(write_token(*table, *owner).as_str()).concat(
                " and the one with token ",
            ).concat(write_token(*table, *other).as_str()).concat(" assure the same last token ").concat(
                Token(*last).to_string().as_str(),
            ),
        }
    }
}

impl Error {
    /// The message of the error.
    pub open spec fn message(self) -> Seq<char> {
        match self {
            Error::InternalBug => "internal error, please report bug"@,
            Error::CorruptedDataset(corruption) => "corrupted file: "@ + corruption.message(),
            Error::ParseError(failure) => "parsing error: "@ + failure.message(),
            Error::CorruptedFile { size, unit } => "corrupted file: the file size is "@ + decimal_text(
                size as nat,
            ) + ", which is not multiple of "@ + decimal_text(unit as nat),
        }
    }

    /// Writes the message of the error.
    pub fn to_string(&self) -> (text: String)
        ensures
            text@ == self.message(),
    {
        match self {
            Error::InternalBug => String::from_str("internal error, please report bug"),
            Error::CorruptedDataset(corruption) => String::from_str("corrupted file: ").concat(
                corruption.to_string().as_str(),
            ),
            Error::ParseError(failure) => String::from_str("parsing error: ").concat(
                failure.to_string().as_str(),
            ),
            Error::CorruptedFile { size, unit } => String::from_str("corrupted file: the file size is ").concat(
                write_decimal(*size as u64).as_str(),
            ).concat(", which is not multiple of ").concat(write_decimal(*unit as u64).as_str()),
        }
    }
}

} // verus!
