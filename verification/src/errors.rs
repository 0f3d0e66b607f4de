use vstd::prelude::*;

verus! {

/// Ghost mirror of [`Error`]: the same variants over mathematical values,
/// used by the specification model of the database format.
pub enum ErrorSpec {
    AddressNotFound,
    InvalidOffset,
    InvalidDataType(u8),
    InvalidRecordSize(u64),
    InvalidSearchTreeSize,
    InvalidNode,
    MetadataNotFound,
    CorruptSearchTree,
    Open(Seq<char>),
    UnknownField(Seq<char>),
    InvalidUtf8,
}

/// Everything that can go wrong while opening a database or looking up an
/// address. All errors are surfaced to the caller; nothing is recovered
/// internally.
#[derive(Debug)]
pub enum Error {
    /// The lookup walked the search tree to the "no data" sentinel.
    AddressNotFound,
    /// A read would exceed the buffer.
    InvalidOffset,
    /// The type tag at the current position is not one of the expected tags.
    InvalidDataType(u8),
    /// The metadata record size is not one of 24, 28 or 32.
    InvalidRecordSize(u64),
    /// The derived data-section start overlaps the metadata region.
    InvalidSearchTreeSize,
    /// The tree walk terminated at an internal-node index.
    InvalidNode,
    /// The trailing metadata marker is absent.
    MetadataNotFound,
    /// The computed data offset is out of bounds of the data section.
    CorruptSearchTree,
    /// Opening or reading the file failed; carries the underlying cause as text.
    Open(String),
    /// A map contained a key not in the target schema.
    UnknownField(String),
    /// A string value was not valid UTF-8.
    InvalidUtf8,
}

impl View for Error {
    type V = ErrorSpec;

    open spec fn view(&self) -> ErrorSpec {
        match self {
            Error::AddressNotFound => ErrorSpec::AddressNotFound,
            Error::InvalidOffset => ErrorSpec::InvalidOffset,
            Error::InvalidDataType(t) => ErrorSpec::InvalidDataType(*t),
            Error::InvalidRecordSize(s) => ErrorSpec::InvalidRecordSize(*s),
            Error::InvalidSearchTreeSize => ErrorSpec::InvalidSearchTreeSize,
            Error::InvalidNode => ErrorSpec::InvalidNode,
            Error::MetadataNotFound => ErrorSpec::MetadataNotFound,
            Error::CorruptSearchTree => ErrorSpec::CorruptSearchTree,
            Error::Open(m) => ErrorSpec::Open(m@),
            Error::UnknownField(f) => ErrorSpec::UnknownField(f@),
            Error::InvalidUtf8 => ErrorSpec::InvalidUtf8,
        }
    }
}

impl Error {
    /// A short human-readable description of the error.
    pub fn message(&self) -> (r: &'static str)
        ensures
            r@ == self.spec_message(),
    {
        match self {
            Error::AddressNotFound => "address not found in database",
            Error::InvalidOffset => "invalid offset",
            Error::InvalidDataType(_) => "invalid data type",
            Error::InvalidRecordSize(_) => "invalid record size",
            Error::InvalidSearchTreeSize => "invalid search tree size",
            Error::InvalidNode => "invalid node",
            Error::MetadataNotFound => "metadata is not found",
            Error::CorruptSearchTree => "search tree is corrupt",
            Error::Open(_) => "open file failed",
            Error::UnknownField(_) => "unknown field",
            Error::InvalidUtf8 => "invalid utf-8",
        }
    }

    pub open spec fn spec_message(&self) -> Seq<char> {
        match self {
            Error::AddressNotFound => "address not found in database"@,
            Error::InvalidOffset => "invalid offset"@,
            Error::InvalidDataType(_) => "invalid data type"@,
            Error::InvalidRecordSize(_) => "invalid record size"@,
            Error::InvalidSearchTreeSize => "invalid search tree size"@,
            Error::InvalidNode => "invalid node"@,
            Error::MetadataNotFound => "metadata is not found"@,
            Error::CorruptSearchTree => "search tree is corrupt"@,
            Error::Open(_) => "open file failed"@,
            Error::UnknownField(_) => "unknown field"@,
            Error::InvalidUtf8 => "invalid utf-8"@,
        }
    }
}

} // verus!
