//! The library's error type.
use vstd::prelude::*;
use crate::strings::{dec_digits, push_decimal, push_str, push_chars, string_from_chars, str_chars};

verus! {

/// Errors of the protocol layer and the device API.
#[derive(Debug)]
pub enum CyrioError {
    /// A USB transfer failed.
    Transport(String),
    /// A handshake packet did not carry the expected magic.
    MagicMismatch {
        /// The expected magic and the context of the check.
        expected: String,
        /// What was received (decoded and raw).
        got: String,
    },
    /// The device reported an error.
    Device(String),
    /// The file number does not exist.
    FileNotFound(u32),
    /// Not enough free space on the memory unit.
    InsufficientSpace {
        /// Bytes needed.
        needed: u64,
        /// Bytes free.
        free: u64,
    },
    /// A record or playlist could not be parsed.
    Parse(String),
    /// Reading or writing a local file failed.
    Io(String),
    /// Any other error.
    Other(String),
}

/// The human-readable message of an error.
pub open spec fn error_message(e: CyrioError) -> Seq<char> {
    match e {
        CyrioError::Transport(m) => "USB transport error: "@ + m@,
        CyrioError::MagicMismatch { expected, got } => "magic mismatch: expected "@ + expected@
            + ", got "@ + got@,
        CyrioError::Device(m) => "device error: "@ + m@,
        CyrioError::FileNotFound(n) => "file not found: fileNo="@ + dec_digits(n as nat),
        CyrioError::InsufficientSpace { needed, free } => "insufficient free space: need "@
            + dec_digits(needed as nat) + " bytes, have "@ + dec_digits(free as nat) + " bytes"@,
        CyrioError::Parse(m) => "parse error: "@ + m@,
        CyrioError::Io(m) => "IO error: "@ + m@,
        CyrioError::Other(m) => m@,
    }
}

impl CyrioError {
    /// The human-readable message of the error.
    pub fn to_string(&self) -> (s: String)
        ensures
            s@ == error_message(*self),
    {
        let mut out: Vec<char> = Vec::new();
        match self {
            CyrioError::Transport(m) => {
                push_str(&mut out, "USB transport error: ");
                push_str(&mut out, m.as_str());
            },
            CyrioError::MagicMismatch { expected, got } => {
                push_str(&mut out, "magic mismatch: expected ");
                push_str(&mut out, expected.as_str());
                push_str(&mut out, ", got ");
                push_str(&mut out, got.as_str());
            },
            CyrioError::Device(m) => {
                push_str(&mut out, "device error: ");
                push_str(&mut out, m.as_str());
            },
            CyrioError::FileNotFound(n) => {
                push_str(&mut out, "file not found: fileNo=");
                push_decimal(&mut out, *n as u64);
            },
            CyrioError::InsufficientSpace { needed, free } => {
                push_str(&mut out, "insufficient free space: need ");
                push_decimal(&mut out, *needed);
                push_str(&mut out, " bytes, have ");
                push_decimal(&mut out, *free);
                push_str(&mut out, " bytes");
            },
            CyrioError::Parse(m) => {
                push_str(&mut out, "parse error: ");
                push_str(&mut out, m.as_str());
            },
            CyrioError::Io(m) => {
                push_str(&mut out, "IO error: ");
                push_str(&mut out, m.as_str());
            },
            CyrioError::Other(m) => {
                push_str(&mut out, m.as_str());
            },
        }
        string_from_chars(out.as_slice())
    }
}

} // verus!
