//! Plain value types shared by the registration and dissection code.

use vstd::prelude::*;

verus! {

/// The Wireshark type of a header field.
#[derive(Clone, Copy, Debug, PartialEq, Eq, Structural)]
pub enum FieldType {
    NoneType,
    Protocol,
    Boolean,
    Char,
    Uint8,
    Uint16,
    Uint24,
    Uint32,
    Uint64,
    Int8,
    Int16,
    Int24,
    Int32,
    Int64,
    Bytes,
    String,
    Stringz,
    Ipv4,
    Ipv6,
    Ether,
}

/// How Wireshark displays the value of a header field.
#[derive(Clone, Copy, Debug, PartialEq, Eq, Structural)]
pub enum FieldDisplay {
    BaseNone,
    BaseDec,
    BaseHex,
    BaseOct,
    BaseDecHex,
    BaseHexDec,
}

impl Default for FieldDisplay {
    /// A field shown without a numeric base.
    fn default() -> (d: Self)
        ensures
            d == FieldDisplay::BaseNone,
    {
        FieldDisplay::BaseNone
    }
}

/// The byte order (or absence of one) used to read a field from the packet.
#[derive(Clone, Copy, Debug, PartialEq, Eq, Structural)]
pub enum Encoding {
    BigEndian,
    LittleEndian,
    NA,
    Ascii,
    Utf8,
}

/// The group an expert info item belongs to.
#[derive(Clone, Copy, Debug, PartialEq, Eq, Structural)]
pub enum ExpertGroup {
    Checksum,
    Sequence,
    ResponseCode,
    RequestCode,
    Undecoded,
    Reassemble,
    Malformed,
    Debug,
    Protocol,
    Security,
    Comments,
    Decryption,
    Assumption,
    Deprecated,
}

/// The severity of an expert info item.
#[derive(Clone, Copy, Debug, PartialEq, Eq, Structural)]
pub enum ExpertSeverity {
    Comment,
    Chat,
    Note,
    Warn,
    Error,
}

/// A column of Wireshark's packet list.
#[derive(Clone, Copy, Debug, PartialEq, Eq, Structural)]
pub enum Column {
    Protocol,
    Info,
}

/// Where a protocol's dissector is attached: a "Decode As" table, or a table keyed
/// by unsigned integers together with the keys to register under.
#[derive(Clone, Debug, PartialEq, Eq)]
pub enum DissectorDecodeFrom {
    DecodeAs(String),
    Uint(String, Vec<u32>),
}

/// Why building or registering a protocol failed.
#[derive(Clone, Copy, Debug, PartialEq, Eq, Structural)]
pub enum RegistrationError {
    MissingFieldType,
    MissingDissector,
    RegistrationFailed,
}

} // verus!
