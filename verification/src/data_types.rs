//! The records that the price service answers with, and the item identifier
//! that keys them.

use crate::decimal::{
    append_digits, decimal_text, decimal_value, digits_of, is_decimal,
    lemma_parse_inverts_render, lemma_parse_reads_decimals, parse_decimal, parse_spec,
    render_decimal, ParseError,
};
use std::collections::HashMap;
use vstd::prelude::*;

verus! {

/// Identifier of a tradeable item.
///
/// Two identifiers are the same item exactly when the wrapped integers are
/// equal.
#[derive(Clone, Copy, Debug, Hash, PartialEq, Eq, Structural)]
pub struct ItemId(pub i64);

/// The JSON shapes that cannot stand for an item identifier.
#[derive(Clone, Copy, Debug, PartialEq, Eq, Structural)]
pub enum JsonKind {
    Null,
    Bool,
    Float,
    Array,
    Object,
}

impl JsonKind {
    /// The name of the shape.
    pub open spec fn name(self) -> Seq<char> {
        match self {
            JsonKind::Null => "null"@,
            JsonKind::Bool => "boolean"@,
            JsonKind::Float => "floating point number"@,
            JsonKind::Array => "array"@,
            JsonKind::Object => "object"@,
        }
    }

    /// The name of the shape.
    pub fn to_string(&self) -> (text: String)
        ensures
            text@ == self.name(),
    {
        match self {
            JsonKind::Null => String::from_str("null"),
            JsonKind::Bool => String::from_str("boolean"),
            JsonKind::Float => String::from_str("floating point number"),
            JsonKind::Array => String::from_str("array"),
            JsonKind::Object => String::from_str("object"),
        }
    }
}

/// An item identifier as it arrives in a JSON document, before it is
/// checked.
///
/// The service writes identifiers as numbers in some answers and as strings
/// in others (always so where they are the keys of an object). A JSON
/// integer arrives as `Signed` or as `Unsigned`, whichever the reader of the
/// document chose for it.
#[derive(Debug, PartialEq, Eq)]
pub enum RawId {
    /// A JSON integer handed over as a signed number.
    Signed(i64),
    /// A JSON integer handed over as an unsigned number.
    Unsigned(u64),
    /// A JSON string.
    Text(String),
    /// Any other JSON value.
    Other(JsonKind),
}

/// Why a JSON value was refused as an item identifier.
#[derive(Clone, Copy, Debug, PartialEq, Eq, Structural)]
pub enum DecodeError {
    /// An unsigned number above `i64::MAX`; it holds the number.
    OutOfRange(u64),
    /// A string that is not the decimal text of an `i64`; it holds what was
    /// wrong with the string.
    InvalidText(ParseError),
    /// A value that is neither a number nor a string; it holds the shape
    /// that was found in place of an item id as number or string.
    UnexpectedShape(JsonKind),
}

/// What a JSON value has to be to stand for an item identifier.
pub const EXPECTED_SHAPE: &'static str = "Item ID as a number or string";

impl DecodeError {
    /// Why the value was refused, in words. An unsigned number out of range
    /// is named by its digits, a string by what was wrong with it, any other
    /// value by its shape and the shape that was expected.
    pub open spec fn message(self) -> Seq<char> {
        match self {
            DecodeError::OutOfRange(x) => "Failed to cast u64 to i64: "@ + digits_of(x as nat),
            DecodeError::InvalidText(reason) => reason.message(),
            DecodeError::UnexpectedShape(kind) => "invalid type: "@ + kind.name() + ", expected "@
                + EXPECTED_SHAPE@,
        }
    }

    /// Why the value was refused, in words.
    pub fn to_string(&self) -> (text: String)
        ensures
            text@ == self.message(),
    {
        match self {
            DecodeError::OutOfRange(x) => {
                let mut text = String::from_str("Failed to cast u64 to i64: ");
                append_digits(&mut text, *x);
                text
            },
            DecodeError::InvalidText(reason) => reason.to_string(),
            DecodeError::UnexpectedShape(kind) => {
                let mut text = String::from_str("invalid type: ");
                let name = kind.to_string();
                text.append(name.as_str());
                text.append(", expected ");
                text.append(EXPECTED_SHAPE);
                text
            },
        }
    }
}

/// Whether `raw` is one of the accepted ways to write the integer `v` as an
/// item identifier: a signed number, an unsigned number that fits in an
/// `i64`, or the decimal text of an `i64`.
pub open spec fn encodes(raw: RawId, v: int) -> bool {
    match raw {
        RawId::Signed(x) => x == v,
        RawId::Unsigned(x) => x == v && x <= i64::MAX,
        RawId::Text(s) => is_decimal(s@) && decimal_value(s@) == v && i64::MIN <= v <= i64::MAX,
        RawId::Other(_) => false,
    }
}

/// The outcome of decoding `raw`.
pub open spec fn decode_spec(raw: RawId) -> Result<ItemId, DecodeError> {
    match raw {
        RawId::Signed(x) => Ok(ItemId(x)),
        RawId::Unsigned(x) => if x <= i64::MAX {
            Ok(ItemId(x as i64))
        } else {
            Err(DecodeError::OutOfRange(x))
        },
        RawId::Text(s) => match parse_spec(s@) {
            Ok(x) => Ok(ItemId(x)),
            Err(reason) => Err(DecodeError::InvalidText(reason)),
        },
        RawId::Other(kind) => Err(DecodeError::UnexpectedShape(kind)),
    }
}

/// Decoding yields the identifier `v` exactly for the accepted encodings of
/// `v`.
pub proof fn lemma_decode_reads_encodings(raw: RawId, v: i64)
    ensures
        encodes(raw, v as int) <==> decode_spec(raw) == Ok::<ItemId, DecodeError>(ItemId(v)),
{
    if let RawId::Text(s) = raw {
        lemma_parse_reads_decimals(s@);
    }
}

/// All accepted encodings of one integer decode to the same identifier,
/// whether they are signed numbers, unsigned numbers or decimal strings.
pub proof fn lemma_encodings_agree(a: RawId, b: RawId, v: int)
    requires
        encodes(a, v),
        encodes(b, v),
    ensures
        decode_spec(a) == decode_spec(b),
        decode_spec(a) == Ok::<ItemId, DecodeError>(ItemId(v as i64)),
{
    if let RawId::Text(s) = a {
        lemma_parse_reads_decimals(s@);
    }
    if let RawId::Text(s) = b {
        lemma_parse_reads_decimals(s@);
    }
}

/// The text that an identifier is rendered to decodes to that identifier.
pub proof fn lemma_rendered_id_decodes(id: ItemId, text: String)
    requires
        text@ == decimal_text(id.0 as int),
    ensures
        decode_spec(RawId::Text(text)) == Ok::<ItemId, DecodeError>(id),
{
    lemma_parse_inverts_render(id.0);
}

impl ItemId {
    /// Decodes an identifier from a JSON value.
    ///
    /// A signed number is taken as it is. An unsigned number is taken if it
    /// does not exceed `i64::MAX`. A string is taken if it is the decimal text
    /// of an `i64`. Everything else is refused.
    pub fn decode(raw: &RawId) -> (decoded: Result<ItemId, DecodeError>)
        ensures
            decoded == decode_spec(*raw),
            decoded is Ok <==> exists|v: int| encodes(*raw, v),
            decoded matches Ok(id) ==> encodes(*raw, id.0 as int),
            *raw matches RawId::Unsigned(x) ==> (x > i64::MAX ==> decoded == Err::<
                ItemId,
                DecodeError,
            >(DecodeError::OutOfRange(x))),
            *raw matches RawId::Text(s) ==> (!is_decimal(s@) ==> decoded is Err),
            *raw is Other ==> decoded is Err,
    {
        let decoded = match raw {
            RawId::Signed(x) => Ok(ItemId(*x)),
            RawId::Unsigned(x) => {
                if *x <= i64::MAX as u64 {
                    Ok(ItemId(*x as i64))
                } else {
                    Err(DecodeError::OutOfRange(*x))
                }
            },
            RawId::Text(s) => {
                match parse_decimal(s.as_str()) {
                    Ok(x) => Ok(ItemId(x)),
                    Err(reason) => Err(DecodeError::InvalidText(reason)),
                }
            },
            RawId::Other(kind) => Err(DecodeError::UnexpectedShape(*kind)),
        };
        proof {
            if let RawId::Text(s) = raw {
                lemma_parse_reads_decimals(s@);
            }
            if let Ok(id) = decoded {
                lemma_decode_reads_encodings(*raw, id.0);
                assert(encodes(*raw, id.0 as int));
            }
        }
        decoded
    }

    /// The decimal digits of the identifier, after a minus sign where it is
    /// negative, and nothing around them.
    pub fn to_string(&self) -> (text: String)
        ensures
            text@ == decimal_text(self.0 as int),
    {
        render_decimal(self.0)
    }
}

/// The latest prices of the items, by identifier.
#[derive(Debug, PartialEq, Eq)]
pub struct GrandExchangeLatest {
    pub data: HashMap<ItemId, GrandExchangeItem>,
}

/// The last trades seen of one item. A field that is `None` means that no
/// trade of that kind was seen lately, not a price of zero.
#[derive(Clone, Copy, Debug, PartialEq, Eq)]
pub struct GrandExchangeItem {
    pub high: Option<i32>,
    pub high_time: Option<i64>,
    pub low: Option<i32>,
    pub low_time: Option<i64>,
}

/// One entry of the item catalog.
#[derive(Debug, PartialEq, Eq)]
pub struct MappingItem {
    pub examine: String,
    pub id: ItemId,
    pub members: bool,
    pub lowalch: Option<i32>,
    pub highalch: Option<i32>,
    pub limit: Option<i64>,
    pub value: i32,
    pub icon: String,
    pub name: String,
}

/// The averaged prices of the items over one time step, by identifier.
#[derive(Debug, PartialEq, Eq)]
pub struct GrandExchangeAverage {
    pub data: HashMap<ItemId, GrandExchangeAverageItem>,
}

/// Averaged prices and traded volumes of one item over one time step.
#[derive(Clone, Copy, Debug, PartialEq, Eq)]
pub struct GrandExchangeAverageItem {
    pub avg_high_price: Option<i32>,
    pub avg_high_price_volume: Option<u64>,
    pub avg_low_price: Option<i32>,
    pub avg_low_price_volume: Option<u64>,
}

/// The price history of one item, in the order in which the service sent
/// it.
#[derive(Debug, PartialEq, Eq)]
pub struct GrandExchangeTimeseries {
    pub data: Vec<GrandExchangeTimeseriesItem>,
}

/// Averaged prices and traded volumes of one item in the bucket that starts
/// at `timestamp`.
#[derive(Clone, Copy, Debug, PartialEq, Eq)]
pub struct GrandExchangeTimeseriesItem {
    pub timestamp: i64,
    pub avg_high_price: Option<i32>,
    pub avg_low_price: Option<i32>,
    pub high_price_volume: Option<u64>,
    pub low_price_volume: Option<u64>,
}

/// The message with which the service refuses a request.
#[derive(Debug, PartialEq, Eq)]
pub struct APIError {
    pub error: String,
}

impl APIError {
    /// The message as the service sent it.
    pub fn to_string(&self) -> (text: String)
        ensures
            text@ == self.error@,
    {
        self.error.clone()
    }
}

} // verus!
