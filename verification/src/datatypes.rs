//! The column type codec: the supported datatypes with their textual
//! names and their fixed-width binary encode/decode rules.

use vstd::prelude::*;
use vstd::utf8::{decode_utf8, encode_utf8, valid_utf8};

use crate::error::{res_view, ErrorV, SqlError};
use crate::strutil::{
    classify_numeral, numeral_class, str_eq, u8_dec_str, u8_to_string, NumeralClass,
};

verus! {

/// A column datatype. `Integer` is stored as a single byte holding 0..=255;
/// `CharacterVarying` is stored as the UTF-8 bytes of its value, right-padded
/// with zero bytes to the column's declared width.
#[derive(Debug, PartialEq, Eq, Clone, Copy, Structural)]
pub enum Datatype {
    Integer,
    CharacterVarying,
}

impl View for Datatype {
    type V = Datatype;

    open spec fn view(&self) -> Datatype {
        *self
    }
}

/// The catalog keyword of a datatype.
pub open spec fn datatype_name(d: Datatype) -> Seq<char> {
    match d {
        Datatype::CharacterVarying => "varchar"@,
        Datatype::Integer => "integer"@,
    }
}

/// The datatype a type keyword names, or the keyword again when it names none.
pub open spec fn parse_datatype_spec(s: Seq<char>) -> Result<Datatype, ErrorV> {
    if s == "varchar"@ || s == "character varying"@ {
        Ok(Datatype::CharacterVarying)
    } else if s == "integer"@ || s == "int"@ || s == "int8"@ {
        Ok(Datatype::Integer)
    } else {
        Err(ErrorV::UnknownType(s))
    }
}

/// Binary image of a literal under a datatype: the UTF-8 bytes of a varchar
/// literal, or the single byte a numeral in 0..=255 denotes.
pub open spec fn to_bytes_spec(d: Datatype, s: Seq<char>) -> Result<Seq<u8>, ErrorV> {
    match d {
        Datatype::CharacterVarying => Ok(encode_utf8(s)),
        Datatype::Integer => match numeral_class(s) {
            NumeralClass::Value(v) => Ok(seq![v]),
            NumeralClass::TooLarge => Err(ErrorV::ValueOutOfRange(s)),
            NumeralClass::Malformed => Err(ErrorV::NotANumber(s)),
        },
    }
}

/// Textual image of stored bytes under a datatype: the string a varchar
/// field's bytes encode, or the decimal numeral of an integer field's
/// first byte.
pub open spec fn from_bytes_spec(d: Datatype, b: Seq<u8>) -> Result<Seq<char>, ErrorV> {
    match d {
        Datatype::CharacterVarying => if valid_utf8(b) {
            Ok(decode_utf8(b))
        } else {
            Err(ErrorV::InvalidUtf8)
        },
        Datatype::Integer => if b.len() == 0 {
            Err(ErrorV::EmptyValue)
        } else {
            Ok(u8_dec_str(b[0]))
        },
    }
}

/// Round trip of the integer codec: encoding any byte value's decimal
/// numeral stores exactly that byte, and decoding that byte returns the
/// numeral again.
pub proof fn lemma_integer_round_trip(v: u8)
    ensures
        to_bytes_spec(Datatype::Integer, u8_dec_str(v)) == Ok::<Seq<u8>, ErrorV>(seq![v]),
        from_bytes_spec(Datatype::Integer, seq![v]) == Ok::<Seq<char>, ErrorV>(u8_dec_str(v)),
{
    crate::strutil::lemma_numeral_round_trip(v);
    assert(seq![v].len() == 1);
    assert(seq![v][0] == v);
}

impl Datatype {
    /// The catalog keyword of this datatype.
    pub fn as_str(&self) -> (r: &'static str)
        ensures
            r@ == datatype_name(*self),
    {
        match self {
            Datatype::CharacterVarying => "varchar",
            Datatype::Integer => "integer",
        }
    }

    /// Whether a column of this datatype declares an explicit width.
    pub fn has_len(&self) -> (r: bool)
        ensures
            r == (*self is CharacterVarying),
    {
        match self {
            Datatype::CharacterVarying => true,
            Datatype::Integer => false,
        }
    }

    /// Encodes a literal as the bytes stored for a field of this datatype.
    pub fn to_bytes(&self, data_val: String) -> (r: Result<Vec<u8>, SqlError>)
        ensures
            res_view(r) == to_bytes_spec(*self, data_val@),
    {
        match self {
            Datatype::CharacterVarying => Ok(data_val.as_str().as_bytes_vec()),
            Datatype::Integer => match classify_numeral(data_val.as_str()) {
                NumeralClass::Value(v) => {
                    let mut bytes: Vec<u8> = Vec::new();
                    bytes.push(v);
                    proof {
                        assert(bytes@ =~= seq![v]);
                    }
                    Ok(bytes)
                },
                NumeralClass::TooLarge => Err(SqlError::ValueOutOfRange(data_val)),
                NumeralClass::Malformed => Err(SqlError::NotANumber(data_val)),
            },
        }
    }

    /// Decodes the bytes stored for a field of this datatype back to text.
    pub fn from_bytes(&self, data_val: &[u8]) -> (r: Result<String, SqlError>)
        ensures
            res_view(r) == from_bytes_spec(*self, data_val@),
    {
        match self {
            Datatype::CharacterVarying => {
                let owned = vstd::slice::slice_to_vec(data_val);
                match crate::strutil::string_from_utf8(owned) {
                    Some(s) => Ok(s),
                    None => Err(SqlError::InvalidUtf8),
                }
            },
            Datatype::Integer => {
                if data_val.len() == 0 {
                    Err(SqlError::EmptyValue)
                } else {
                    let b = *vstd::slice::slice_index_get(data_val, 0);
                    Ok(u8_to_string(b))
                }
            },
        }
    }

    /// Resolves a type keyword to its datatype.
    pub fn parse_from_str(string: &str) -> (r: Result<Datatype, SqlError>)
        ensures
            res_view(r) == parse_datatype_spec(string@),
    {
        if str_eq(string, "varchar") || str_eq(string, "character varying") {
            Ok(Datatype::CharacterVarying)
        } else if str_eq(string, "integer") || str_eq(string, "int") || str_eq(string, "int8") {
            Ok(Datatype::Integer)
        } else {
            Err(SqlError::UnknownType(String::from_str(string)))
        }
    }

    /// Resolves a type keyword to its datatype, reporting failure as a
    /// bare message.
    pub fn from_str(string: &str) -> (r: Result<Datatype, String>)
        ensures
            parse_datatype_spec(string@) is Ok <==> r is Ok,
            r is Ok ==> r->Ok_0 == parse_datatype_spec(string@)->Ok_0,
            r is Err ==> r->Err_0@ == "Undefined data type"@,
    {
        match Self::parse_from_str(string) {
            Ok(d) => Ok(d),
            Err(_) => Err(String::from_str("Undefined data type")),
        }
    }
}

} // verus!
