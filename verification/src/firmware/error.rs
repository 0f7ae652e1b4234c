//! Errors of the firmware editor.

use crate::firmware::text::{dec_text, push_dec, push_text, string_from_chars};
use vstd::prelude::*;

verus! {

/// Failure of a firmware-editor operation.
#[derive(Debug)]
pub enum FirmwareError {
    /// An I/O failure reported by the caller that did the I/O.
    Io(String),
    /// A malformed patch or definition document.
    Xml(String),
    /// No known encryption scheme fits the image.
    UnknownEncryption,
    /// The scheme is recognised but not supported for this operation.
    UnsupportedEncryption(String),
    /// No definition marker occurs in the image.
    DefinitionNotFound,
    /// A patch expected another byte at `offset`.
    IncompatiblePatch { offset: usize, expected: u8, found: u8 },
    /// Another patch claims `offset` with a different byte.
    Conflict { offset: usize, other: String },
    /// The device accepted the boot-flag write and restart but never came
    /// back in LDROM updater mode.
    DidNotReenumerate,
    /// Any other failure, with its message.
    Other(String),
}

/// The text a failure is shown with.
pub open spec fn error_text(e: FirmwareError) -> Seq<char> {
    match e {
        FirmwareError::Io(s) => "IO error: "@ + s@,
        FirmwareError::Xml(s) => "XML parse error: "@ + s@,
        FirmwareError::UnknownEncryption => "Unknown encryption"@,
        FirmwareError::UnsupportedEncryption(s) => "Unsupported encryption: "@ + s@,
        FirmwareError::DefinitionNotFound => "Definition not found"@,
        FirmwareError::IncompatiblePatch { offset, expected, found } => "Incompatible patch at offset "@ + dec_text(
            offset as nat,
        ) + ": expected "@ + dec_text(expected as nat) + ", found "@ + dec_text(found as nat),
        FirmwareError::Conflict { offset, other } => "Conflict with patch "@ + other@ + " at offset "@ + dec_text(
            offset as nat,
        ),
        FirmwareError::DidNotReenumerate => "device did not re-enumerate in bootloader mode"@,
        FirmwareError::Other(s) => s@,
    }
}

impl FirmwareError {
    /// The text this failure is shown with.
    pub fn message(&self) -> (s: String)
        ensures
            s@ == error_text(*self),
    {
        let mut m: Vec<char> = Vec::new();
        match self {
            FirmwareError::Io(s) => {
                push_text(&mut m, "IO error: ");
                push_text(&mut m, s.as_str());
            },
            FirmwareError::Xml(s) => {
                push_text(&mut m, "XML parse error: ");
                push_text(&mut m, s.as_str());
            },
            FirmwareError::UnknownEncryption => push_text(&mut m, "Unknown encryption"),
            FirmwareError::UnsupportedEncryption(s) => {
                push_text(&mut m, "Unsupported encryption: ");
                push_text(&mut m, s.as_str());
            },
            FirmwareError::DefinitionNotFound => push_text(&mut m, "Definition not found"),
            FirmwareError::IncompatiblePatch { offset, expected, found } => {
                push_text(&mut m, "Incompatible patch at offset ");
                push_dec(&mut m, *offset as u128);
                push_text(&mut m, ": expected ");
                push_dec(&mut m, *expected as u128);
                push_text(&mut m, ", found ");
                push_dec(&mut m, *found as u128);
            },
            FirmwareError::Conflict { offset, other } => {
                push_text(&mut m, "Conflict with patch ");
                push_text(&mut m, other.as_str());
                push_text(&mut m, " at offset ");
                push_dec(&mut m, *offset as u128);
            },
            FirmwareError::DidNotReenumerate => push_text(&mut m, "device did not re-enumerate in bootloader mode"),
            FirmwareError::Other(s) => push_text(&mut m, s.as_str()),
        }
        string_from_chars(m.as_slice())
    }
}

} // verus!
