//! Shared error type for the signal and pipeline modules.
use vstd::prelude::*;
use crate::text::{chars_of, decimal, decimal_exec, append_chars, string_of};

verus! {

/// An error raised by a signal or pipeline stage.
#[derive(Debug, Clone)]
pub enum EngineError {
    /// A free-form message.
    Msg(String),
    /// Two arrays whose shapes should agree do not.
    Dim(String),
    /// A cross-correlation peak that cannot be read as a shift.
    InvalidPeak { row: usize, col: usize },
}

/// The text an error is shown as.
pub open spec fn engine_error_text(e: EngineError) -> Seq<char> {
    match e {
        EngineError::Msg(m) => m@,
        EngineError::Dim(m) => "dimension mismatch: "@ + m@,
        EngineError::InvalidPeak { row, col } => "invalid shift peak at ("@ + decimal(row as nat) + ", "@
            + decimal(col as nat) + ")"@,
    }
}

impl EngineError {
    /// The text the error is shown as.
    pub fn message(&self) -> (r: String)
        ensures
            r@ == engine_error_text(*self),
    {
        match self {
            EngineError::Msg(m) => m.clone(),
            EngineError::Dim(m) => {
                let mut v = chars_of("dimension mismatch: ");
                let mv = chars_of(m.as_str());
                append_chars(&mut v, &mv);
                string_of(&v)
            },
            EngineError::InvalidPeak { row, col } => {
                let mut v = chars_of("invalid shift peak at (");
                append_chars(&mut v, &decimal_exec(*row as u64));
                append_chars(&mut v, &chars_of(", "));
                append_chars(&mut v, &decimal_exec(*col as u64));
                append_chars(&mut v, &chars_of(")"));
                string_of(&v)
            },
        }
    }
}

impl From<String> for EngineError {
    fn from(s: String) -> (r: Self) {
        EngineError::Msg(s)
    }
}

impl vstd::std_specs::convert::FromSpecImpl<String> for EngineError {
    open spec fn obeys_from_spec() -> bool {
        true
    }

    open spec fn from_spec(s: String) -> Self {
        EngineError::Msg(s)
    }
}

} // verus!
