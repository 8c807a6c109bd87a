//! Record identifiers and their text forms.

use crate::error::{Error, ParseFailure};
use vstd::prelude::*;
use vstd::string::{StringExecFns, StringSliceAdditionalSpecFns};

verus! {

/// Number of bytes of a token.
pub const TOKEN_LENGTH: usize = 16;

/// The identifier of a record: sixteen bytes, held as the number that they
/// write in big-endian order and written as thirty-two hexadecimal digits.
#[derive(Debug, Clone, Copy, PartialEq, Eq, Hash, Structural)]
pub struct Token(pub u128);

/// The identifier of a visibility record: a small number, written in decimal.
#[derive(Debug, Clone, Copy, PartialEq, Eq, Hash, Structural)]
pub struct VisibilityToken(pub u32);

/// The value of a hexadecimal digit, of either case.
pub open spec fn hex_digit_value(c: char) -> Option<int> {
    if '0' <= c <= '9' {
        Some(c as int - '0' as int)
    } else if 'a' <= c <= 'f' {
        Some(c as int - 'a' as int + 10)
    } else if 'A' <= c <= 'F' {
        Some(c as int - 'A' as int + 10)
    } else {
        None
    }
}

/// The text is an even number of hexadecimal digits.
pub open spec fn is_hex_text(s: Seq<char>) -> bool {
    &&& s.len() % 2 == 0
    &&& forall|i: int| 0 <= i < s.len() ==> (#[trigger] hex_digit_value(s[i])) is Some
}

/// The bytes that a hexadecimal text writes, two digits to a byte.
pub open spec fn hex_bytes(s: Seq<char>) -> Seq<u8> {
    Seq::new(
        s.len() / 2,
        |i: int| (16 * hex_digit_value(s[2 * i]).unwrap() + hex_digit_value(s[2 * i + 1]).unwrap()) as u8,
    )
}

/// The lower-case hexadecimal digit of a value below sixteen.
pub open spec fn lower_hex_digit(v: int) -> char {
    if v < 10 {
        ('0' as int + v) as char
    } else {
        ('a' as int + v - 10) as char
    }
}

/// The lower-case hexadecimal text of some bytes, two digits to a byte.
pub open spec fn hex_text(bytes: Seq<u8>) -> Seq<char> {
    Seq::new(
        2 * bytes.len(),
        |i: int| if i % 2 == 0 {
            lower_hex_digit(bytes[i / 2] as int / 16)
        } else {
            lower_hex_digit(bytes[i / 2] as int % 16)
        },
    )
}

/// The number that some bytes write in big-endian order.
pub open spec fn be_value(bytes: Seq<u8>) -> nat
    decreases bytes.len(),
{
    if bytes.len() == 0 {
        0
    } else {
        256 * be_value(bytes.drop_last()) + bytes.last() as nat
    }
}

/// The sixteen bytes that write a number of 128 bits in big-endian order.
pub open spec fn be_bytes(value: u128) -> Seq<u8> {
    Seq::new(16, |i: int| ((value as nat / pow256((15 - i) as nat)) % 256) as u8)
}

/// 256 to the power `n`.
pub open spec fn pow256(n: nat) -> nat
    decreases n,
{
    if n == 0 {
        1
    } else {
        256 * pow256((n - 1) as nat)
    }
}

/// The decimal value of a text made of digits only.
pub open spec fn decimal_value(s: Seq<char>) -> nat
    decreases s.len(),
{
    if s.len() == 0 {
        0
    } else {
        10 * decimal_value(s.drop_last()) + (s.last() as int - '0' as int) as nat
    }
}

/// The text is a decimal number: an optional `+`, then at least one digit.
pub open spec fn is_decimal_text(s: Seq<char>) -> bool {
    let digits = decimal_digits(s);
    &&& digits.len() > 0
    &&& forall|i: int| 0 <= i < digits.len() ==> '0' <= #[trigger] digits[i] <= '9'
}

/// The digits of a decimal text: what follows the sign, if there is one.
pub open spec fn decimal_digits(s: Seq<char>) -> Seq<char> {
    if s.len() > 0 && s[0] == '+' {
        s.drop_first()
    } else {
        s
    }
}

/// The text of a token: thirty-two hexadecimal digits.
pub open spec fn is_token_text(s: Seq<char>) -> bool {
    is_hex_text(s) && s.len() == 2 * TOKEN_LENGTH
}

/// The byte is a hexadecimal digit, of either case.
pub open spec fn is_hex_byte(b: u8) -> bool {
    (0x30 <= b <= 0x39) || (0x41 <= b <= 0x46) || (0x61 <= b <= 0x66)
}

/// The place of the first byte from `from` on that is no hexadecimal digit;
/// the number of bytes, if there is none.
pub open spec fn first_non_hex(bytes: Seq<u8>, from: int) -> int
    decreases bytes.len() - from,
{
    if from < 0 || from >= bytes.len() {
        bytes.len() as int
    } else if !is_hex_byte(bytes[from]) {
        from
    } else {
        first_non_hex(bytes, from + 1)
    }
}

/// Why bytes that are not an even number of hexadecimal digits are refused:
/// for their odd number, or else for the first byte that is no digit.
pub open spec fn hex_failure(bytes: Seq<u8>) -> ParseFailure {
    if bytes.len() % 2 != 0 {
        ParseFailure::OddLength
    } else {
        let index = first_non_hex(bytes, 0);
        ParseFailure::InvalidHexCharacter { c: bytes[index] as char, index: index as usize }
    }
}

/// Why a text that is no token text is refused: for what is wrong with the
/// bytes of its UTF-8 form, or else for its length.
pub open spec fn token_parse_failure(s: Seq<char>) -> ParseFailure {
    if !is_hex_text(s) {
        hex_failure(vstd::utf8::encode_utf8(s))
    } else {
        ParseFailure::InvalidLength { expected: 32, found: s.len() as usize }
    }
}

/// The text of a visibility token: a decimal number of 32 bits.
pub open spec fn is_visibility_token_text(s: Seq<char>) -> bool {
    is_decimal_text(s) && decimal_value(decimal_digits(s)) <= u32::MAX
}

/// What a text decodes to as a token: the number that its thirty-two
/// hexadecimal digits write, or the reason why it is refused.
pub open spec fn token_spec(text: Seq<char>) -> core::result::Result<Token, Error> {
    if is_token_text(text) {
        Ok(Token(be_value(hex_bytes(text)) as u128))
    } else {
        Err(Error::ParseError(token_parse_failure(text)))
    }
}

/// What a text decodes to as a visibility token: the number that its
/// decimal digits write, or the refusal.
pub open spec fn visibility_token_spec(text: Seq<char>) -> core::result::Result<VisibilityToken, Error> {
    if is_visibility_token_text(text) {
        Ok(VisibilityToken(decimal_value(decimal_digits(text)) as u32))
    } else {
        Err(Error::ParseError(ParseFailure::InvalidNumber))
    }
}

#[verifier::external_type_specification]
#[verifier::external_body]
pub struct ExParseIntError(core::num::ParseIntError);

/// `hex::decode` on a string. Trusted: it succeeds exactly on an even number
/// of hexadecimal digits of either case, and then returns one byte for each
/// pair of digits, the first digit of a pair being the upper half of the byte.
/// It refuses an odd number of bytes as such, and an even number with the
/// first byte that is no digit, given as a character, and its place. Its
/// three kinds of error are handed on one for one.
#[verifier::external_body]
fn hex_decode(text: &str) -> (r: core::result::Result<Vec<u8>, ParseFailure>)
    ensures
        r is Ok <==> is_hex_text(text@),
        r matches Ok(bytes) ==> bytes@ == hex_bytes(text@),
        r matches Err(failure) ==> failure == hex_failure(text.spec_bytes()),
{
    match hex::decode(text) {
        Ok(bytes) => Ok(bytes),
        Err(hex::FromHexError::InvalidHexCharacter { c, index }) => Err(
            ParseFailure::InvalidHexCharacter { c, index },
        ),
        Err(hex::FromHexError::OddLength) => Err(ParseFailure::OddLength),
        Err(hex::FromHexError::InvalidStringLength) => Err(ParseFailure::InvalidStringLength),
    }
}

/// `hex::encode` on bytes. Trusted: it returns two lower-case hexadecimal
/// digits for each byte, the upper half of the byte first.
#[verifier::external_body]
fn hex_encode(bytes: &Vec<u8>) -> (r: String)
    ensures
        r@ == hex_text(bytes@),
{
    hex::encode(bytes)
}

/// `str::parse::<u32>`. Trusted: it succeeds exactly on an optional `+`
/// followed by at least one decimal digit whose value fits in 32 bits, and
/// then returns that value.
#[verifier::external_body]
fn parse_u32(text: &str) -> (r: core::result::Result<u32, core::num::ParseIntError>)
    ensures
        r is Ok <==> is_visibility_token_text(text@),
        r matches Ok(v) ==> v == decimal_value(decimal_digits(text@)),
{
    text.parse::<u32>()
}

/// The powers of 256 grow.
pub proof fn lemma_pow256_monotonic(a: nat, b: nat)
    requires
        a <= b,
    ensures
        0 < pow256(a) <= pow256(b),
    decreases b,
{
    if a < b {
        lemma_pow256_monotonic(a, (b - 1) as nat);
    } else if a > 0 {
        lemma_pow256_monotonic((a - 1) as nat, (a - 1) as nat);
    }
}

/// Sixteen bytes write a number below 2 to the power 128.
pub proof fn lemma_pow256_sixteen()
    ensures
        pow256(16) == 0x1_0000_0000_0000_0000_0000_0000_0000_0000,
{
    reveal_with_fuel(pow256, 17);
}

/// Bytes in big-endian order write a number below 256 to the power of their count.
pub proof fn lemma_be_value_bound(bytes: Seq<u8>)
    ensures
        be_value(bytes) < pow256(bytes.len()),
    decreases bytes.len(),
{
    if bytes.len() > 0 {
        lemma_be_value_bound(bytes.drop_last());
    }
}

/// The number that sixteen bytes write in big-endian order.
fn pack_be(bytes: &Vec<u8>) -> (value: u128)
    requires
        bytes@.len() == 16,
    ensures
        value == be_value(bytes@),
{
    let mut value: u128 = 0;
    let mut i: usize = 0;
    while i < 16
        invariant
            i <= 16,
            bytes@.len() == 16,
            value == be_value(bytes@.take(i as int)),
        decreases 16 - i,
    {
        proof {
            lemma_be_value_bound(bytes@.take(i as int));
            lemma_pow256_monotonic(i as nat + 1, 16);
            lemma_pow256_sixteen();
            assert(bytes@.take(i + 1).drop_last() == bytes@.take(i as int));
        }
        value = value * 256 + bytes[i] as u128;
        i += 1;
    }
    assert(bytes@.take(16) == bytes@);
    value
}

/// The sixteen bytes that write a number in big-endian order.
fn unpack_be(value: u128) -> (bytes: Vec<u8>)
    ensures
        bytes@ == be_bytes(value),
{
    let mut bytes: Vec<u8> = vec![0u8; 16];
    let mut rest: u128 = value;
    let mut i: usize = 16;
    assert(pow256(0) == 1);
    assert(value as nat / 1 == value as nat) by (nonlinear_arith);
    while i > 0
        invariant
            i <= 16,
            bytes@.len() == 16,
            rest == value as nat / pow256((16 - i) as nat),
            forall|j: int| i <= j < 16 ==> bytes@[j] == #[trigger] be_bytes(value)[j],
        decreases i,
    {
        i -= 1;
        proof {
            lemma_pow256_monotonic((15 - i) as nat, (15 - i) as nat);
            vstd::arithmetic::div_mod::lemma_div_denominator(
                value as int,
                pow256((15 - i) as nat) as int,
                256,
            );
        }
        bytes.set(i, (rest % 256) as u8);
        rest = rest / 256;
    }
    assert(bytes@ =~= be_bytes(value));
    bytes
}

impl Token {
    /// The token that sixteen bytes write.
    pub fn from_bytes(bytes: &[u8; 16]) -> (token: Token)
        ensures
            token.0 == be_value(bytes@),
    {
        let mut list: Vec<u8> = Vec::new();
        let mut i: usize = 0;
        while i < 16
            invariant
                i <= 16,
                list@ == bytes@.take(i as int),
            decreases 16 - i,
        {
            list.push(bytes[i]);
            assert(bytes@.take(i + 1) == bytes@.take(i as int).push(bytes@[i as int]));
            i += 1;
        }
        assert(bytes@.take(16) == bytes@);
        Token(pack_be(&list))
    }

    /// The sixteen bytes of the token.
    pub fn to_bytes(&self) -> (bytes: [u8; 16])
        ensures
            bytes@ == be_bytes(self.0),
    {
        let list = unpack_be(self.0);
        let mut bytes: [u8; 16] = [0u8; 16];
        let mut i: usize = 0;
        while i < 16
            invariant
                i <= 16,
                list@.len() == 16,
                forall|j: int| 0 <= j < i ==> bytes@[j] == list@[j],
            decreases 16 - i,
        {
            bytes.set(i, list[i]);
            i += 1;
        }
        assert(bytes@ =~= list@);
        bytes
    }

    /// Reads a token from its text of thirty-two hexadecimal digits, of either case.
    pub fn from_str(text: &str) -> (r: core::result::Result<Token, Error>)
        ensures
            r == token_spec(text@),
    {
        match hex_decode(text) {
            Err(failure) => Err(Error::ParseError(failure)),
            Ok(bytes) => {
                if bytes.len() != TOKEN_LENGTH {
                    let found = text.unicode_len();
                    Err(Error::ParseError(ParseFailure::InvalidLength { expected: 32, found }))
                } else {
                    Ok(Token(pack_be(&bytes)))
                }
            },
        }
    }

    /// Writes the token as thirty-two lower-case hexadecimal digits.
    pub fn to_string(&self) -> (text: String)
        ensures
            text@ == hex_text(be_bytes(self.0)),
    {
        let bytes = unpack_be(self.0);
        hex_encode(&bytes)
    }
}

/// The decimal digit of a value below ten.
pub open spec fn decimal_digit(v: int) -> char {
    ('0' as int + v) as char
}

/// The decimal text of a number, without a sign and without leading zeros.
pub open spec fn decimal_text(v: nat) -> Seq<char>
    decreases v,
{
    if v < 10 {
        seq![decimal_digit(v as int)]
    } else {
        decimal_text(v / 10).push(decimal_digit((v % 10) as int))
    }
}

/// The text of one decimal digit.
fn digit_str(v: u64) -> (text: &'static str)
    requires
        v < 10,
    ensures
        text@ == seq![decimal_digit(v as int)],
{
    proof {
        reveal_strlit("0");
        reveal_strlit("1");
        reveal_strlit("2");
        reveal_strlit("3");
        reveal_strlit("4");
        reveal_strlit("5");
        reveal_strlit("6");
        reveal_strlit("7");
        reveal_strlit("8");
        reveal_strlit("9");
    }
    let text = if v == 0 {
        "0"
    } else if v == 1 {
        "1"
    } else if v == 2 {
        "2"
    } else if v == 3 {
        "3"
    } else if v == 4 {
        "4"
    } else if v == 5 {
        "5"
    } else if v == 6 {
        "6"
    } else if v == 7 {
        "7"
    } else if v == 8 {
        "8"
    } else {
        "9"
    };
    assert(text@ =~= seq![decimal_digit(v as int)]);
    text
}

/// Writes a number in decimal.
pub fn write_decimal(v: u64) -> (text: String)
    ensures
        text@ == decimal_text(v as nat),
    decreases v,
{
    if v < 10 {
        digit_str(v).to_owned()
    } else {
        let front = write_decimal(v / 10);
        let text = front.concat(digit_str(v % 10));
        assert(text@ =~= decimal_text(v as nat));
        text
    }
}

impl VisibilityToken {
    /// Writes the visibility token in decimal.
    pub fn to_string(&self) -> (text: String)
        ensures
            text@ == decimal_text(self.0 as nat),
    {
        write_decimal(self.0 as u64)
    }

    /// Reads a visibility token from its decimal text.
    pub fn from_str(text: &str) -> (r: core::result::Result<VisibilityToken, Error>)
        ensures
            r == visibility_token_spec(text@),
    {
        match parse_u32(text) {
            Ok(value) => Ok(VisibilityToken(value)),
            Err(_) => Err(Error::ParseError(ParseFailure::InvalidNumber)),
        }
    }
}

} // verus!
