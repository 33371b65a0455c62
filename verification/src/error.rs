//! The errors of the interpreter program.

use std::io;
use vstd::prelude::*;

verus! {

/// `std::io::Error`, carried as an opaque value.
#[verifier::external_type_specification]
#[verifier::external_body]
pub struct ExIoError(io::Error);

/// An error of the interpreter program.
#[derive(Debug)]
pub enum ACEmError {
    /// Reading the program file failed.
    FileReadError(io::Error),
    /// Any other failure, with its message.
    GenericError(String),
}

/// The text that introduces a file read error.
pub open spec fn read_error_prefix() -> Seq<char> {
    seq!['F', 'a', 'i', 'l', 'e', 'd', ' ', 't', 'o', ' ', 'r', 'e', 'a', 'd', ' ', 'f', 'i', 'l', 'e', ':', ' ']
}

/// Calls `ToString::to_string` on an I/O error. Its text comes from the
/// operating system: nothing is promised of it.
#[verifier::external_body]
fn io_error_text(e: &io::Error) -> String {
    e.to_string()
}

impl ACEmError {
    /// The message of the error: `Failed to read file: ` and the I/O error's
    /// own text, or the message itself.
    pub fn message(&self) -> (m: String)
        ensures
            match self {
                ACEmError::FileReadError(_) => m@.len() >= read_error_prefix().len()
                    && m@.subrange(0, read_error_prefix().len() as int) == read_error_prefix(),
                ACEmError::GenericError(s) => m@ == s@,
            },
    {
        match self {
            ACEmError::FileReadError(e) => {
                let prefix: &str = "Failed to read file: ";
                proof {
                    reveal_strlit("Failed to read file: ");
                }
                assert(prefix@ =~= read_error_prefix());
                let mut m = String::from_str(prefix);
                m.append(io_error_text(e).as_str());
                assert(m@.subrange(0, read_error_prefix().len() as int) =~= read_error_prefix());
                m
            },
            ACEmError::GenericError(s) => s.clone(),
        }
    }
}

impl From<String> for ACEmError {
    fn from(v: String) -> (e: Self) {
        Self::GenericError(v)
    }
}

impl vstd::std_specs::convert::FromSpecImpl<String> for ACEmError {
    open spec fn obeys_from_spec() -> bool {
        true
    }

    open spec fn from_spec(v: String) -> Self {
        ACEmError::GenericError(v)
    }
}

impl From<io::Error> for ACEmError {
    fn from(e: io::Error) -> (r: Self) {
        Self::FileReadError(e)
    }
}

impl vstd::std_specs::convert::FromSpecImpl<io::Error> for ACEmError {
    open spec fn obeys_from_spec() -> bool {
        true
    }

    open spec fn from_spec(e: io::Error) -> Self {
        ACEmError::FileReadError(e)
    }
}

} // verus!
