//! Error taxonomy shared by every codec in the crate.

use crate::text::append_hex_byte;
use crate::text::hex_byte;
use vstd::prelude::*;
use vstd::std_specs::convert::FromSpecImpl;
use vstd::string::StringExecFns;

verus! {

/// Failures of the configuration-string codec.
#[derive(Debug, Clone, Copy, PartialEq, Eq, Structural)]
pub enum ConfigError {
    /// The key is empty, holds a byte outside printable ASCII or an `=`,
    /// or holds nothing but whitespace.
    InvalidKey,
    /// The string starts with `=`, so the key would be empty.
    KeyStartsWithEquals,
    /// The data ended where a length byte was expected.
    UnexpectedEnd,
    /// A length byte announces more bytes than the data still holds.
    LengthOverflow,
    /// The output buffer cannot take the serialized data.
    BufferTooSmall,
    /// The bytes of a string are not valid UTF-8.
    InvalidUtf8,
}

/// Failures of the packet, entry and option codecs.
#[derive(Debug, Clone, Copy, PartialEq, Eq, Structural)]
pub enum Error {
    /// The buffer is shorter than the structure it should hold.
    BufferTooShort,
    /// The entry type byte is outside the set the entry kind allows.
    InvalidEntryType(u8),
    /// The option type byte is none of the defined option types.
    InvalidOptionType(u8),
    /// The transport protocol byte is neither TCP nor UDP.
    InvalidProtocol(u8),
    /// A length field does not agree with the bytes that remain.
    LengthOverflow,
    /// A failure of the configuration-string codec.
    ConfigurationError(ConfigError),
}

impl From<ConfigError> for Error {
    fn from(err: ConfigError) -> (e: Error) {
        Error::ConfigurationError(err)
    }
}

impl FromSpecImpl<ConfigError> for Error {
    open spec fn obeys_from_spec() -> bool {
        true
    }

    open spec fn from_spec(err: ConfigError) -> Error {
        Error::ConfigurationError(err)
    }
}

fn with_hex_byte(prefix: &str, b: u8) -> (s: String)
    ensures
        s@ == prefix@ + hex_byte(b),
{
    let mut out = String::from_str(prefix);
    append_hex_byte(&mut out, b);
    out
}

impl ConfigError {
    /// The message of this error.
    pub open spec fn message(self) -> Seq<char> {
        match self {
            ConfigError::InvalidKey => "invalid key format"@,
            ConfigError::KeyStartsWithEquals => "key starts with '='"@,
            ConfigError::UnexpectedEnd => "unexpected end of data"@,
            ConfigError::LengthOverflow => "length field overflow"@,
            ConfigError::BufferTooSmall => "buffer too small"@,
            ConfigError::InvalidUtf8 => "invalid UTF-8"@,
        }
    }

    /// Renders the error as text.
    pub fn to_string(&self) -> (s: String)
        ensures
            s@ == self.message(),
    {
        match self {
            ConfigError::InvalidKey => String::from_str("invalid key format"),
            ConfigError::KeyStartsWithEquals => String::from_str("key starts with '='"),
            ConfigError::UnexpectedEnd => String::from_str("unexpected end of data"),
            ConfigError::LengthOverflow => String::from_str("length field overflow"),
            ConfigError::BufferTooSmall => String::from_str("buffer too small"),
            ConfigError::InvalidUtf8 => String::from_str("invalid UTF-8"),
        }
    }
}

impl Error {
    /// The message of this error; a rejected byte is shown as two
    /// hexadecimal digits.
    pub open spec fn message(self) -> Seq<char> {
        match self {
            Error::BufferTooShort => "buffer too short for expected structure"@,
            Error::InvalidEntryType(t) => "invalid entry type: 0x"@ + hex_byte(t),
            Error::InvalidOptionType(t) => "invalid option type: 0x"@ + hex_byte(t),
            Error::InvalidProtocol(p) => "invalid transport protocol: 0x"@ + hex_byte(p),
            Error::LengthOverflow => "length field overflow"@,
            Error::ConfigurationError(e) => "configuration error: "@ + e.message(),
        }
    }

    /// Renders the error as text.
    pub fn to_string(&self) -> (s: String)
        ensures
            s@ == self.message(),
    {
        match self {
            Error::BufferTooShort => String::from_str("buffer too short for expected structure"),
            Error::InvalidEntryType(t) => with_hex_byte("invalid entry type: 0x", *t),
            Error::InvalidOptionType(t) => with_hex_byte("invalid option type: 0x", *t),
            Error::InvalidProtocol(p) => with_hex_byte("invalid transport protocol: 0x", *p),
            Error::LengthOverflow => String::from_str("length field overflow"),
            Error::ConfigurationError(e) => {
                let inner = e.to_string();
                String::from_str("configuration error: ").concat(inner.as_str())
            },
        }
    }
}

} // verus!
