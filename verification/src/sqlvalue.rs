//! Typed SQL parameters and column marshalling.
//!
//! A guest passes parameters as JSON values with optional type hints; the
//! core decides what each parameter binds to.  Result columns travel the
//! other way: engine values become JSON values, with non-finite doubles
//! mapped to null and blobs rendered in base64.

use vstd::prelude::*;
use base64::Engine;
use crate::json::{JVal, obj_get, obj_get_seq};

verus! {

/// A value as the SQL engine stores it.  `Real` carries the bits of an
/// IEEE-754 double.
#[derive(Debug, PartialEq, Eq)]
pub enum SqlValue {
    Null,
    Integer(i64),
    Real(u64),
    Text(String),
    Blob(Vec<u8>),
}

/// One result row, one value per selected column.
#[derive(Debug, PartialEq, Eq)]
pub struct SqlRow {
    pub values: Vec<SqlValue>,
}

/// The type a guest may ask a parameter to be coerced to.
#[derive(Debug, Clone, Copy, PartialEq, Eq, Structural, Default)]
pub enum SqlTypeHint {
    #[default]
    Text,
    Integer,
    Real,
    Blob,
    Boolean,
    Datetime,
    Null,
}

/// A parameter as the guest sends it: a JSON value and an optional hint.
#[derive(Debug, PartialEq, Eq)]
pub struct TypedSqlParam {
    pub value: JVal,
    pub type_hint: Option<SqlTypeHint>,
}

/// What a parameter binds to.  The two outcomes the core cannot render
/// itself are named: `RealFromInt` asks the engine adapter for the double
/// encoding of the integer, and `JsonText` asks it for the canonical JSON
/// text of the parameter's [`TypedSqlParam::actual_value`].
#[derive(Debug, PartialEq, Eq)]
pub enum SqlBinding {
    Value(SqlValue),
    RealFromInt(i64),
    JsonText,
}

/// The value a parameter really carries: a guest may nest it one level
/// deep under a `value` member of an object.
pub open spec fn spec_actual_value(v: JVal) -> JVal {
    match v {
        JVal::Obj(fields) => match obj_get_seq(fields@, "value"@) {
            Option::Some(inner) => inner,
            Option::None => v,
        },
        _ => v,
    }
}

/// The binding rule.  A present hint coerces; a failed coercion binds
/// NULL, never an error.  A boolean becomes integer 0 or 1.  A blob hint
/// stores the given text verbatim.  Without a hint the value maps by its
/// own JSON type, compound values becoming their canonical JSON text.
pub open spec fn spec_bind(p: TypedSqlParam) -> SqlBinding {
    let actual = spec_actual_value(p.value);
    match p.type_hint {
        Option::Some(hint) => match hint {
            SqlTypeHint::Null => SqlBinding::Value(SqlValue::Null),
            SqlTypeHint::Boolean => match actual {
                JVal::Bool(b) => SqlBinding::Value(
                    SqlValue::Integer(
                        if b {
                            1i64
                        } else {
                            0i64
                        },
                    ),
                ),
                _ => SqlBinding::Value(SqlValue::Null),
            },
            SqlTypeHint::Integer => match actual {
                JVal::Int(i) => SqlBinding::Value(SqlValue::Integer(i)),
                _ => SqlBinding::Value(SqlValue::Null),
            },
            SqlTypeHint::Real => match actual {
                JVal::Real(bits) => SqlBinding::Value(SqlValue::Real(bits)),
                JVal::Int(i) => SqlBinding::RealFromInt(i),
                _ => SqlBinding::Value(SqlValue::Null),
            },
            SqlTypeHint::Text | SqlTypeHint::Datetime => match actual {
                JVal::Str(s) => SqlBinding::Value(SqlValue::Text(s)),
                _ => SqlBinding::Value(SqlValue::Null),
            },
            SqlTypeHint::Blob => match actual {
                JVal::Str(s) => SqlBinding::Value(SqlValue::Text(s)),
                _ => SqlBinding::Value(SqlValue::Null),
            },
        },
        Option::None => match actual {
            JVal::Null => SqlBinding::Value(SqlValue::Null),
            JVal::Bool(b) => SqlBinding::Value(
                SqlValue::Integer(
                    if b {
                        1i64
                    } else {
                        0i64
                    },
                ),
            ),
            JVal::Int(i) => SqlBinding::Value(SqlValue::Integer(i)),
            JVal::Real(bits) => SqlBinding::Value(SqlValue::Real(bits)),
            JVal::Str(s) => SqlBinding::Value(SqlValue::Text(s)),
            _ => SqlBinding::JsonText,
        },
    }
}

impl TypedSqlParam {
    /// The value the binding rule applies to.
    pub fn actual_value(&self) -> (r: &JVal)
        ensures
            *r == spec_actual_value(self.value),
    {
        match &self.value {
            JVal::Obj(fields) => {
                let key: String = String::from_str("value");
                match obj_get(fields, &key) {
                    Option::Some(inner) => inner,
                    Option::None => &self.value,
                }
            },
            _ => &self.value,
        }
    }

    /// Bind this parameter following the binding rule.
    pub fn to_sql(&self) -> (r: SqlBinding)
        ensures
            r == spec_bind(*self),
    {
        let actual = self.actual_value();
        match &self.type_hint {
            Option::Some(hint) => match hint {
                SqlTypeHint::Null => SqlBinding::Value(SqlValue::Null),
                SqlTypeHint::Boolean => match actual {
                    JVal::Bool(b) => SqlBinding::Value(
                        SqlValue::Integer(
                            if *b {
                                1
                            } else {
                                0
                            },
                        ),
                    ),
                    _ => SqlBinding::Value(SqlValue::Null),
                },
                SqlTypeHint::Integer => match actual {
                    JVal::Int(i) => SqlBinding::Value(SqlValue::Integer(*i)),
                    _ => SqlBinding::Value(SqlValue::Null),
                },
                SqlTypeHint::Real => match actual {
                    JVal::Real(bits) => SqlBinding::Value(SqlValue::Real(*bits)),
                    JVal::Int(i) => SqlBinding::RealFromInt(*i),
                    _ => SqlBinding::Value(SqlValue::Null),
                },
                SqlTypeHint::Text | SqlTypeHint::Datetime => match actual {
                    JVal::Str(s) => SqlBinding::Value(SqlValue::Text(s.clone())),
                    _ => SqlBinding::Value(SqlValue::Null),
                },
                SqlTypeHint::Blob => match actual {
                    JVal::Str(s) => SqlBinding::Value(SqlValue::Text(s.clone())),
                    _ => SqlBinding::Value(SqlValue::Null),
                },
            },
            Option::None => match actual {
                JVal::Null => SqlBinding::Value(SqlValue::Null),
                JVal::Bool(b) => SqlBinding::Value(
                    SqlValue::Integer(
                        if *b {
                            1
                        } else {
                            0
                        },
                    ),
                ),
                JVal::Int(i) => SqlBinding::Value(SqlValue::Integer(*i)),
                JVal::Real(bits) => SqlBinding::Value(SqlValue::Real(*bits)),
                JVal::Str(s) => SqlBinding::Value(SqlValue::Text(s.clone())),
                _ => SqlBinding::JsonText,
            },
        }
    }
}

/// What `base64`'s standard engine returns for the given bytes.
pub uninterp spec fn base64_of(bytes: Seq<u8>) -> Seq<char>;

/// Relies on base64's standard-alphabet padded engine: the encoding is a
/// function of the input bytes alone, four characters per three bytes.
#[verifier::external_body]
fn base64_encode(bytes: &[u8]) -> (r: String)
    ensures
        r@ == base64_of(bytes@),
        r@.len() == 4 * ((bytes@.len() + 2) / 3),
{
    base64::engine::general_purpose::STANDARD.encode(bytes)
}

/// A double is finite unless its exponent bits are all ones (NaN or an
/// infinity).
pub open spec fn real_is_finite(bits: u64) -> bool {
    (bits >> 52) & 0x7ff != 0x7ff
}

/// How an engine value appears in a JSON result row: NULL maps to null,
/// an integer to a number, a finite double to a number and NaN or an
/// infinity to null, text to a string, and a blob to its base64 string.
pub open spec fn marshalled(v: SqlValue, r: JVal) -> bool {
    match v {
        SqlValue::Null => r == JVal::Null,
        SqlValue::Integer(i) => r == JVal::Int(i),
        SqlValue::Real(bits) => r == if real_is_finite(bits) {
            JVal::Real(bits)
        } else {
            JVal::Null
        },
        SqlValue::Text(s) => r matches JVal::Str(t) && t@ == s@,
        SqlValue::Blob(b) => r matches JVal::Str(t) && t@ == base64_of(b@),
    }
}

/// Marshal one engine value into its JSON form.
pub fn marshal_value(v: SqlValue) -> (r: JVal)
    ensures
        marshalled(v, r),
{
    match v {
        SqlValue::Null => JVal::Null,
        SqlValue::Integer(i) => JVal::Int(i),
        SqlValue::Real(bits) => {
            if (bits >> 52) & 0x7ff != 0x7ff {
                JVal::Real(bits)
            } else {
                JVal::Null
            }
        },
        SqlValue::Text(s) => JVal::Str(s),
        SqlValue::Blob(b) => JVal::Str(base64_encode(b.as_slice())),
    }
}

} // verus!
