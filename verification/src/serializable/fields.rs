//! The encodings that some fields have in the files: an empty text for an
//! absent token or log file, and no rows for an absent camera matrix.

use crate::error::{Error, ParseFailure};
use crate::serializable::types::Float64;
use crate::token::{be_bytes, hex_text, token_spec, Token};
use vstd::prelude::*;

verus! {

/// What the text of a token that may be absent decodes to: the empty text
/// stands for none, a token text for its token, and any other text is refused.
pub open spec fn opt_token_spec(text: Seq<char>) -> core::result::Result<Option<Token>, Error> {
    if text.len() == 0 {
        Ok(None)
    } else {
        match token_spec(text) {
            Ok(token) => Ok(Some(token)),
            Err(e) => Err(e),
        }
    }
}

/// Reads a token that may be absent: the empty text stands for none.
pub fn opt_token_from_str(text: &str) -> (r: core::result::Result<Option<Token>, Error>)
    ensures
        r == opt_token_spec(text@),
{
    if text.unicode_len() == 0 {
        Ok(None)
    } else {
        match Token::from_str(text) {
            Ok(token) => Ok(Some(token)),
            Err(e) => Err(e),
        }
    }
}

/// Writes a token that may be absent: the empty text stands for none.
pub fn opt_token_to_string(value: &Option<Token>) -> (text: String)
    ensures
        text@ == match *value {
            Some(token) => hex_text(be_bytes(token.0)),
            None => Seq::<char>::empty(),
        },
{
    match value {
        Some(token) => token.to_string(),
        None => String::new(),
    }
}

/// Reads the path of a log file that may be absent: the empty text stands for none.
pub fn logfile_from_str(text: &str) -> (r: Option<String>)
    ensures
        text@.len() == 0 <==> r is None,
        r matches Some(path) ==> path@ == text@,
{
    if text.unicode_len() == 0 {
        None
    } else {
        Some(text.to_owned())
    }
}

/// Writes the path of a log file that may be absent: the empty text stands for none.
pub fn logfile_to_string(value: &Option<String>) -> (text: String)
    ensures
        text@ == match *value {
            Some(path) => path@,
            None => Seq::<char>::empty(),
        },
{
    match value {
        Some(path) => path.clone(),
        None => String::new(),
    }
}

/// The first of the first three rows that does not hold three numbers, if any.
pub open spec fn first_short_row(rows: Seq<Vec<Float64>>) -> Option<int> {
    if rows.len() > 0 && rows[0]@.len() != 3 {
        Some(0int)
    } else if rows.len() > 1 && rows[1]@.len() != 3 {
        Some(1int)
    } else if rows.len() > 2 && rows[2]@.len() != 3 {
        Some(2int)
    } else {
        None
    }
}

/// What the rows of a camera matrix decode to: no rows stand for no matrix,
/// three rows of three numbers for a matrix, anything else is refused.
pub open spec fn camera_intrinsic_spec(rows: Seq<Vec<Float64>>) -> core::result::Result<
    Option<[[Float64; 3]; 3]>,
    Error,
> {
    match first_short_row(rows) {
        Some(i) => Err(
            Error::ParseError(ParseFailure::InvalidRowLength { row: i as usize, found: rows[i]@.len() as usize }),
        ),
        None => if rows.len() == 0 {
            Ok(None)
        } else if rows.len() == 3 {
            Ok(Some([
                [rows[0]@[0], rows[0]@[1], rows[0]@[2]],
                [rows[1]@[0], rows[1]@[1], rows[1]@[2]],
                [rows[2]@[0], rows[2]@[1], rows[2]@[2]],
            ]))
        } else {
            Err(Error::ParseError(ParseFailure::InvalidRowCount { found: rows.len() as usize }))
        },
    }
}

/// Reads a camera matrix that may be absent from the rows of its array.
pub fn camera_intrinsic_from_rows(rows: &Vec<Vec<Float64>>) -> (r: core::result::Result<
    Option<[[Float64; 3]; 3]>,
    Error,
>)
    ensures
        r == camera_intrinsic_spec(rows@),
{
    let mut i: usize = 0;
    while i < rows.len() && i < 3
        invariant
            i <= 3,
            i <= rows@.len(),
            forall|j: int| 0 <= j < i ==> (#[trigger] rows@[j])@.len() == 3,
        decreases 3 - i,
    {
        if rows[i].len() != 3 {
            return Err(Error::ParseError(ParseFailure::InvalidRowLength { row: i, found: rows[i].len() }));
        }
        i += 1;
    }
    if rows.len() == 0 {
        Ok(None)
    } else if rows.len() == 3 {
        Ok(Some([
            [rows[0][0], rows[0][1], rows[0][2]],
            [rows[1][0], rows[1][1], rows[1][2]],
            [rows[2][0], rows[2][1], rows[2][2]],
        ]))
    } else {
        Err(Error::ParseError(ParseFailure::InvalidRowCount { found: rows.len() }))
    }
}

/// The numbers of one row of a camera matrix.
fn row_to_vec(row: &[Float64; 3]) -> (numbers: Vec<Float64>)
    ensures
        numbers@ == row@,
{
    let mut numbers: Vec<Float64> = Vec::new();
    numbers.push(row[0]);
    numbers.push(row[1]);
    numbers.push(row[2]);
    assert(numbers@ =~= row@);
    numbers
}

/// Writes a camera matrix that may be absent as the rows of its array.
pub fn camera_intrinsic_to_rows(value: &Option<[[Float64; 3]; 3]>) -> (rows: Vec<Vec<Float64>>)
    ensures
        value is None ==> rows@.len() == 0,
        value matches Some(m) ==> rows@.len() == 3 && forall|i: int|
            0 <= i < 3 ==> (#[trigger] rows@[i])@ == m@[i]@,
{
    let mut rows: Vec<Vec<Float64>> = Vec::new();
    match value {
        None => {},
        Some(m) => {
            rows.push(row_to_vec(&m[0]));
            rows.push(row_to_vec(&m[1]));
            rows.push(row_to_vec(&m[2]));
        },
    }
    rows
}

} // verus!
