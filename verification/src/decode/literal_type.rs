use vstd::prelude::*;

use super::error::{DecodeError, DecodeErrorView, DecodeResult};

verus! {

/// How the literals of a chunk are coded.
#[derive(Debug, Clone, Copy, PartialEq, Eq, Structural)]
pub enum LiteralType {
    /// Difference between byte and byte from the most recent offset.
    Sub,
    /// Regular bytes.
    Raw,
    /// Same as [`LiteralType::Sub`] but the first byte of each run is coded in
    /// its own entropy stream.
    LamSub,
    /// Same as [`LiteralType::Sub`] but with four literal streams, entropy
    /// coded apart; the destination offset modulo 4 selects the stream.
    SubAnd3,
    /// Sixteen literal streams; the last byte shifted right by 4 selects the
    /// stream.
    Order1,
    /// Same as [`LiteralType::SubAnd3`] but with sixteen streams.
    SubAndF,
}

/// The number that codes `t`.
pub open spec fn literal_type_code(t: LiteralType) -> int {
    match t {
        LiteralType::Sub => 0,
        LiteralType::Raw => 1,
        LiteralType::LamSub => 2,
        LiteralType::SubAnd3 => 3,
        LiteralType::Order1 => 4,
        LiteralType::SubAndF => 5,
    }
}

/// The literal type that `value` codes, if any.
pub open spec fn literal_type_from_code(value: usize) -> DecodeResult<LiteralType> {
    if value == 0 {
        Ok(LiteralType::Sub)
    } else if value == 1 {
        Ok(LiteralType::Raw)
    } else if value == 2 {
        Ok(LiteralType::LamSub)
    } else if value == 3 {
        Ok(LiteralType::SubAnd3)
    } else if value == 4 {
        Ok(LiteralType::Order1)
    } else if value == 5 {
        Ok(LiteralType::SubAndF)
    } else {
        Err(DecodeError::InvalidLiteralType(value))
    }
}

impl TryFrom<usize> for LiteralType {
    type Error = DecodeError;

    fn try_from(value: usize) -> (r: DecodeResult<Self>)
        ensures
            r matches Ok(t) ==> value < 6 && literal_type_code(t) == value,
            r matches Err(e) ==> value >= 6 && e@ == DecodeErrorView::InvalidLiteralType(value),
    {
        match value {
            0 => Ok(Self::Sub),
            1 => Ok(Self::Raw),
            2 => Ok(Self::LamSub),
            3 => Ok(Self::SubAnd3),
            4 => Ok(Self::Order1),
            5 => Ok(Self::SubAndF),
            _ => Err(DecodeError::InvalidLiteralType(value)),
        }
    }
}

impl vstd::std_specs::convert::TryFromSpecImpl<usize> for LiteralType {
    open spec fn obeys_try_from_spec() -> bool {
        true
    }

    open spec fn try_from_spec(value: usize) -> DecodeResult<Self> {
        literal_type_from_code(value)
    }
}

impl From<LiteralType> for i32 {
    fn from(value: LiteralType) -> (r: i32)
        ensures
            r == literal_type_code(value),
    {
        match value {
            LiteralType::Sub => 0,
            LiteralType::Raw => 1,
            LiteralType::LamSub => 2,
            LiteralType::SubAnd3 => 3,
            LiteralType::Order1 => 4,
            LiteralType::SubAndF => 5,
        }
    }
}

impl vstd::std_specs::convert::FromSpecImpl<LiteralType> for i32 {
    open spec fn obeys_from_spec() -> bool {
        true
    }

    open spec fn from_spec(value: LiteralType) -> i32 {
        literal_type_code(value) as i32
    }
}

/// Reading a literal type back from its number gives the same type.
pub proof fn lemma_literal_type_round_trip(t: LiteralType)
    ensures
        literal_type_from_code(literal_type_code(t) as usize) == Ok::<LiteralType, DecodeError>(t),
{
}

/// A number reads as a literal type exactly when it is below 6, and then the
/// type's number is that number.
pub proof fn lemma_literal_type_codes(value: usize)
    ensures
        literal_type_from_code(value) is Ok <==> value < 6,
        literal_type_from_code(value) matches Ok(t) ==> literal_type_code(t) == value,
{
}

} // verus!
