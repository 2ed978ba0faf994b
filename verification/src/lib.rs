//! Extraction of the CPU instruction-set extensions that a machine-code blob
//! uses: decode the blob into instructions, classify each instruction by the
//! CPU features it requires, and union the per-instruction feature sets into
//! one deduplicated result.

pub mod aggregate;
pub mod classify;
pub mod decoder;
pub mod feature_set;
pub mod features;
pub mod oracle;
pub mod textline;

use vstd::prelude::*;

verus! {

/// The addressing/operand-size context a code blob is decoded under.
#[derive(Clone, Copy, PartialEq, Eq, Structural, Debug)]
pub enum ExecutionMode {
    Bits16,
    Bits32,
    Bits64,
}

/// Why no code blob could be obtained from the binary container; fatal, as
/// there is nothing to decode.
#[derive(Clone, Copy, PartialEq, Eq, Structural, Debug)]
pub enum ContainerError {
    UnrecognizedFormat,
    NoCodeRegion,
    UnsupportedMode,
}

/// Which decode backend the engine runs: decoding the raw code bytes itself,
/// or re-decoding the hex-byte fields of an external disassembler's text
/// lines through a per-instruction classification oracle.
#[derive(Clone, Copy, PartialEq, Eq, Structural, Debug)]
pub enum DecodeBackend {
    Native,
    ExternalToolPipe,
}

} // verus!
