//! Conversion of parsed literals into typed values.
//!
//! A parsed literal is checked against the type of the field it is meant
//! to fill: a mismatched literal is rejected, and an integer literal that
//! does not fit the target width is rejected as a custom error, so a
//! field is never silently truncated.

use vstd::prelude::*;
use vstd::string::StringExecFns;

use crate::parse::{BsnLit, LitModel};
use crate::props::{PropVal, ValKind};

verus! {

/// Why a parsed literal could not become a typed value.
#[derive(Debug)]
pub enum FromBsnError {
    /// The literal's shape does not match the expected type.
    MismatchedType,
    /// A field was given that the type does not have.
    UnexpectedField(String),
    /// Another conversion failure, such as an out-of-range integer.
    Custom(String),
}

impl FromBsnError {
    /// Returns a description of this error.
    pub fn message(&self) -> String {
        match self {
            FromBsnError::MismatchedType => String::from_str("type did not match expected type"),
            FromBsnError::UnexpectedField(f) => f.clone(),
            FromBsnError::Custom(m) => m.clone(),
        }
    }
}

/// Converts a literal to the unit value: only the unit literal succeeds.
pub fn unit_from_bsn(value: &BsnLit) -> (r: Result<(), FromBsnError>)
    ensures
        match value.deep_view() {
            LitModel::Unit => r is Ok,
            _ => r matches Err(e) && e is MismatchedType,
        },
{
    match value {
        BsnLit::Unit => Ok(()),
        _ => Err(FromBsnError::MismatchedType),
    }
}

/// Converts a literal to a boolean: only a boolean literal succeeds.
pub fn bool_from_bsn(value: &BsnLit) -> (r: Result<bool, FromBsnError>)
    ensures
        match value.deep_view() {
            LitModel::Truth(b) => r == Ok::<bool, FromBsnError>(b),
            _ => r matches Err(e) && e is MismatchedType,
        },
{
    match value {
        BsnLit::Truth(b) => Ok(*b),
        _ => Err(FromBsnError::MismatchedType),
    }
}

/// Converts a literal to text: only a string literal succeeds.
pub fn string_from_bsn(value: &BsnLit) -> (r: Result<String, FromBsnError>)
    ensures
        match value.deep_view() {
            LitModel::Text(s) => r matches Ok(t) && t@ == s,
            _ => r matches Err(e) && e is MismatchedType,
        },
{
    match value {
        BsnLit::Text(s) => Ok(s.clone()),
        _ => Err(FromBsnError::MismatchedType),
    }
}

/// Converts a literal to a signed machine integer: only an integer
/// literal succeeds.
pub fn i64_from_bsn(value: &BsnLit) -> (r: Result<i64, FromBsnError>)
    ensures
        match value.deep_view() {
            LitModel::Num(n) => r == Ok::<i64, FromBsnError>(n as i64),
            _ => r matches Err(e) && e is MismatchedType,
        },
{
    match value {
        BsnLit::Num(n) => Ok(*n),
        _ => Err(FromBsnError::MismatchedType),
    }
}

/// Converts an integer literal within the given bounds; an integer out
/// of bounds is a custom error, any other literal a mismatch.
pub fn int_in_range_from_bsn(value: &BsnLit, lo: i64, hi: i64) -> (r: Result<i64, FromBsnError>)
    ensures
        match value.deep_view() {
            LitModel::Num(n) => {
                if lo <= n <= hi {
                    r == Ok::<i64, FromBsnError>(n as i64)
                } else {
                    r matches Err(e) && e is Custom
                }
            },
            _ => r matches Err(e) && e is MismatchedType,
        },
{
    match value {
        BsnLit::Num(n) => {
            if lo <= *n && *n <= hi {
                Ok(*n)
            } else {
                Err(FromBsnError::Custom(String::from_str("integer literal out of range")))
            }
        },
        _ => Err(FromBsnError::MismatchedType),
    }
}

/// Converts a literal to one byte: an integer literal in byte range.
pub fn u8_from_bsn(value: &BsnLit) -> (r: Result<u8, FromBsnError>)
    ensures
        match value.deep_view() {
            LitModel::Num(n) => {
                if 0 <= n <= u8::MAX {
                    r == Ok::<u8, FromBsnError>(n as u8)
                } else {
                    r matches Err(e) && e is Custom
                }
            },
            _ => r matches Err(e) && e is MismatchedType,
        },
{
    match int_in_range_from_bsn(value, 0, 255) {
        Ok(n) => Ok(n as u8),
        Err(e) => Err(e),
    }
}

/// Converts a literal to an unsigned 32-bit integer: an integer literal
/// in range.
pub fn u32_from_bsn(value: &BsnLit) -> (r: Result<u32, FromBsnError>)
    ensures
        match value.deep_view() {
            LitModel::Num(n) => {
                if 0 <= n <= u32::MAX {
                    r == Ok::<u32, FromBsnError>(n as u32)
                } else {
                    r matches Err(e) && e is Custom
                }
            },
            _ => r matches Err(e) && e is MismatchedType,
        },
{
    match int_in_range_from_bsn(value, 0, 0xffff_ffff) {
        Ok(n) => Ok(n as u32),
        Err(e) => Err(e),
    }
}

/// Converts a literal to a signed 32-bit integer: an integer literal in
/// range.
pub fn i32_from_bsn(value: &BsnLit) -> (r: Result<i32, FromBsnError>)
    ensures
        match value.deep_view() {
            LitModel::Num(n) => {
                if i32::MIN <= n <= i32::MAX {
                    r == Ok::<i32, FromBsnError>(n as i32)
                } else {
                    r matches Err(e) && e is Custom
                }
            },
            _ => r matches Err(e) && e is MismatchedType,
        },
{
    match int_in_range_from_bsn(value, -0x8000_0000, 0x7fff_ffff) {
        Ok(n) => Ok(n as i32),
        Err(e) => Err(e),
    }
}

/// What converting a literal against an expected field kind yields: the
/// field value's image on success, or nothing when the literal does not
/// fit. A text literal fits an entity-reference field: it names the
/// entity and is resolved at construction time.
pub open spec fn from_bsn_kind_spec(kind: ValKind, lit: LitModel) -> Option<crate::props::ValModel> {
    match (kind, lit) {
        (ValKind::Num, LitModel::Num(n)) => Some(crate::props::ValModel::Num(n)),
        (ValKind::Truth, LitModel::Truth(b)) => Some(crate::props::ValModel::Truth(b)),
        (ValKind::Text, LitModel::Text(s)) => Some(crate::props::ValModel::Text(s)),
        (ValKind::Ent, LitModel::Text(s)) => Some(crate::props::ValModel::Text(s)),
        _ => None,
    }
}

/// Converts a literal against the expected kind of a field. Text is
/// returned for both text fields and entity-reference fields; any other
/// mismatch fails.
pub fn from_bsn_kind(kind: ValKind, value: &BsnLit) -> (r: Result<PropVal, FromBsnError>)
    ensures
        match from_bsn_kind_spec(kind, value.deep_view()) {
            Some(v) => r matches Ok(pv) && pv.deep_view() == v,
            None => r matches Err(e) && e is MismatchedType,
        },
{
    match (kind, value) {
        (ValKind::Num, BsnLit::Num(n)) => Ok(PropVal::Num(*n)),
        (ValKind::Truth, BsnLit::Truth(b)) => Ok(PropVal::Truth(*b)),
        (ValKind::Text, BsnLit::Text(s)) => Ok(PropVal::Text(s.clone())),
        (ValKind::Ent, BsnLit::Text(s)) => Ok(PropVal::Text(s.clone())),
        _ => Err(FromBsnError::MismatchedType),
    }
}

} // verus!
