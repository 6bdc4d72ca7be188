use vstd::prelude::*;

verus! {

/// The ways a conversion can fail: the three parse failures of the decode
/// direction, and the three shape failures of the encode direction.
#[derive(Clone, Copy, PartialEq, Eq, Structural, Debug)]
pub enum ErrorKind {
    /// The text is not a valid document under the modern dialect.
    InvalidV2,
    /// The text is not a valid document under the legacy dialect.
    InvalidV1,
    /// The text is valid under neither dialect (fallback mode).
    InvalidBoth,
    /// The value handed to the encoder is not a record where one is required.
    ExpectedRecord,
    /// An entry value is a record without exactly one key.
    EntryNotOneKey,
    /// An entry value has a shape no entry can carry.
    EntryValueUnsupported,
}

/// A conversion failure: its kind, plus the underlying parser diagnostic when
/// one exists (empty for shape failures).
#[derive(Debug)]
pub struct Error {
    pub kind: ErrorKind,
    pub detail: String,
}

pub open spec fn kind_prefix(k: ErrorKind) -> Seq<char> {
    match k {
        ErrorKind::InvalidV2 => "invalid KDL v2 format: "@,
        ErrorKind::InvalidV1 => "invalid KDL v1 format: "@,
        ErrorKind::InvalidBoth => "invalid KDL format (tried v2 and v1): "@,
        ErrorKind::ExpectedRecord => "Expected a record"@,
        ErrorKind::EntryNotOneKey => "entry should be either a record with one key"@,
        ErrorKind::EntryValueUnsupported => "value not supported, expected string, int, float, bool or null"@,
    }
}

impl Error {
    pub open spec fn spec_message(&self) -> Seq<char> {
        kind_prefix(self.kind) + self.detail@
    }

    pub fn new(kind: ErrorKind) -> (r: Error)
        ensures
            r.kind == kind,
            r.detail@ == Seq::<char>::empty(),
    {
        Error { kind, detail: String::new() }
    }

    pub fn with_detail(kind: ErrorKind, detail: String) -> (r: Error)
        ensures
            r.kind == kind,
            r.detail == detail,
    {
        Error { kind, detail }
    }

    /// The user-facing message: a fixed text for the kind, followed by the
    /// parser diagnostic when one exists.
    pub fn message(&self) -> (r: String)
        ensures
            r@ == self.spec_message(),
    {
        let p: &str = match self.kind {
            ErrorKind::InvalidV2 => "invalid KDL v2 format: ",
            ErrorKind::InvalidV1 => "invalid KDL v1 format: ",
            ErrorKind::InvalidBoth => "invalid KDL format (tried v2 and v1): ",
            ErrorKind::ExpectedRecord => "Expected a record",
            ErrorKind::EntryNotOneKey => "entry should be either a record with one key",
            ErrorKind::EntryValueUnsupported => "value not supported, expected string, int, float, bool or null",
        };
        let mut m = String::new();
        m.append(p);
        m.append(self.detail.as_str());
        m
    }
}

} // verus!
