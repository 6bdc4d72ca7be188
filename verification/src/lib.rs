pub mod decode;
pub mod doc;
pub mod encode;
pub mod error;
pub mod kdl_io;
pub mod laws;
pub mod num;
pub mod value;

use vstd::prelude::*;
use crate::decode::{decode_document, parse_document};
use crate::encode::{build_document, build_document_spec};
use crate::error::{Error, ErrorKind};
use crate::kdl_io::{kdl_text, parse_v1_text, parse_v2_text, render_document, v1_doc, v2_doc};
use crate::value::Value;

verus! {

/// Which dialect(s) the decoder accepts: the modern dialect only (the
/// default), the legacy dialect only, or the modern dialect with one retry
/// under the legacy dialect when it fails.
#[derive(Clone, Copy, PartialEq, Eq, Structural, Debug)]
pub enum Mode {
    StrictV2,
    StrictV1,
    V1Fallback,
}

/// The converter between document text and the generic value model.
pub struct KDL;

impl KDL {
    /// Decodes document text into a record value, under the given dialect
    /// mode.
    pub fn from(&self, input: &str, mode: Mode) -> (r: Result<Value, Error>)
        ensures
            mode == Mode::StrictV2 ==> (match v2_doc(input@) {
                Option::Some(dv) => r matches Result::Ok(v) && v@ == decode_document(dv),
                Option::None => r matches Result::Err(e) && e.kind == ErrorKind::InvalidV2,
            }),
            mode == Mode::StrictV1 ==> (match v1_doc(input@) {
                Option::Some(dv) => r matches Result::Ok(v) && v@ == decode_document(dv),
                Option::None => r matches Result::Err(e) && e.kind == ErrorKind::InvalidV1,
            }),
            mode == Mode::V1Fallback ==> (match v2_doc(input@) {
                Option::Some(dv) => r matches Result::Ok(v) && v@ == decode_document(dv),
                Option::None => match v1_doc(input@) {
                    Option::Some(dv) => r matches Result::Ok(v) && v@ == decode_document(dv),
                    Option::None => r matches Result::Err(e) && e.kind == ErrorKind::InvalidBoth,
                },
            }),
    {
        match mode {
            Mode::StrictV1 => match parse_v1_text(input) {
                Result::Ok(d) => Result::Ok(parse_document(&d)),
                Result::Err(detail) => Result::Err(
                    Error::with_detail(ErrorKind::InvalidV1, detail),
                ),
            },
            Mode::V1Fallback => match parse_v2_text(input) {
                Result::Ok(d) => Result::Ok(parse_document(&d)),
                Result::Err(_) => match parse_v1_text(input) {
                    Result::Ok(d) => Result::Ok(parse_document(&d)),
                    Result::Err(detail) => Result::Err(
                        Error::with_detail(ErrorKind::InvalidBoth, detail),
                    ),
                },
            },
            Mode::StrictV2 => match parse_v2_text(input) {
                Result::Ok(d) => Result::Ok(parse_document(&d)),
                Result::Err(detail) => Result::Err(
                    Error::with_detail(ErrorKind::InvalidV2, detail),
                ),
            },
        }
    }

    /// Encodes a record value as document text; any other top-level shape,
    /// or an entry value no entry can carry, is refused.
    pub fn to(&self, input: &Value) -> (r: Result<String, Error>)
        ensures
            match build_document_spec(input@) {
                Result::Ok(dv) => r matches Result::Ok(s) && s@ == kdl_text(dv),
                Result::Err(k) => r matches Result::Err(e) && e.kind == k,
            },
    {
        match build_document(input) {
            Result::Ok(d) => Result::Ok(render_document(&d)),
            Result::Err(e) => Result::Err(e),
        }
    }
}

/// The decode command of the host pipeline.
pub struct FromKdl;

/// The encode command of the host pipeline.
pub struct ToKdl;

impl FromKdl {
    pub fn name(&self) -> (r: String)
        ensures
            r@ == "from kdl"@,
    {
        String::from_str("from kdl")
    }

    pub fn description(&self) -> (r: String)
        ensures
            r@ == "Convert KDL document to Nushell record"@,
    {
        String::from_str("Convert KDL document to Nushell record")
    }
}

impl ToKdl {
    pub fn name(&self) -> (r: String)
        ensures
            r@ == "to kdl"@,
    {
        String::from_str("to kdl")
    }

    pub fn description(&self) -> (r: String)
        ensures
            r@ == "Convert Nushell record to KDL document"@,
    {
        String::from_str("Convert Nushell record to KDL document")
    }
}

} // verus!
