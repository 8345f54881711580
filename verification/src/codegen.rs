//! Options and errors of code generation.
use vstd::prelude::*;

use crate::text::decimal;

verus! {

/// Optimization level requested for the generated module.
#[derive(Debug, Clone, Copy, PartialEq, Eq, Structural)]
pub enum OptLevel {
    /// No optimization.
    Off,
    Default,
    Aggressive,
}

impl Default for OptLevel {
    fn default() -> (r: OptLevel)
        ensures
            r == OptLevel::Default,
    {
        OptLevel::Default
    }
}

/// Options controlling a single compilation.
#[derive(Debug, Clone)]
pub struct CodegenOptions {
    /// If set, the generated LLVM IR is also written to this path as text.
    pub emit_llvm_path: Option<String>,
    /// Where the final linked native executable is written.
    pub output_path: String,
    pub opt_level: OptLevel,
}

impl Default for CodegenOptions {
    fn default() -> (r: CodegenOptions)
        ensures
            r.emit_llvm_path is None,
            r.output_path@ == Seq::<char>::empty(),
            r.opt_level == OptLevel::Default,
    {
        CodegenOptions { emit_llvm_path: None, output_path: String::new(), opt_level: OptLevel::default() }
    }
}

impl CodegenOptions {
    /// The default options, writing the executable to `output_path`.
    pub fn with_output_path(output_path: String) -> (r: CodegenOptions)
        ensures
            r.emit_llvm_path is None,
            r.output_path@ == output_path@,
            r.opt_level == OptLevel::Default,
    {
        CodegenOptions { output_path, ..Default::default() }
    }
}

/// Every way code generation can fail.
#[derive(Debug)]
pub enum CodegenError {
    /// The LLVM module failed verification: an internal bug in a lowering function.
    LlvmVerification(String),
    /// A filesystem operation failed; the text is the I/O error's message.
    Io(String),
    /// Object emission via the LLVM target machine failed.
    TargetEmission(String),
    /// The system linker driver could not be invoked, or returned non-zero.
    Link { driver: String, status: Option<i32>, stderr: String },
    /// A construct that passed semantic analysis has no lowering yet.
    Unsupported { construct: String },
}

/// Rust's `Debug` rendering of an exit status: `Some(<code>)` or `None`.
pub open spec fn status_text(status: Option<i32>) -> Seq<char> {
    match status {
        Some(code) => "Some("@ + int_text(code as int) + ")"@,
        None => "None"@,
    }
}

/// The decimal rendering of a signed integer.
pub open spec fn int_text(i: int) -> Seq<char> {
    if i < 0 {
        "-"@ + crate::text::decimal_text((-i) as nat)
    } else {
        crate::text::decimal_text(i as nat)
    }
}

/// The text of a code generation error.
pub open spec fn codegen_error_text(e: CodegenError) -> Seq<char> {
    match e {
        CodegenError::LlvmVerification(msg) => "internal error: LLVM module failed verification: "@ + msg@,
        CodegenError::Io(err) => "I/O error during code generation: "@ + err@,
        CodegenError::TargetEmission(msg) => "failed to emit object code: "@ + msg@,
        CodegenError::Link { driver, status, stderr } => "linker `"@ + driver@ + "` failed (exit status "@
            + status_text(status) + "):\n"@ + stderr@,
        CodegenError::Unsupported { construct } => "internal error: no code generation support yet for: "@
            + construct@,
    }
}

/// The decimal rendering of `i`.
fn signed_decimal(i: i32) -> (r: String)
    ensures
        r@ == int_text(i as int),
{
    if i < 0 {
        let magnitude: i64 = -(i as i64);
        let mut out = String::from_str("-");
        out.append(decimal(magnitude as usize).as_str());
        out
    } else {
        decimal(i as usize)
    }
}

impl CodegenError {
    /// The text of this error.
    pub fn message(&self) -> (r: String)
        ensures
            r@ == codegen_error_text(*self),
    {
        match self {
            CodegenError::LlvmVerification(msg) => {
                let mut out = String::from_str("internal error: LLVM module failed verification: ");
                out.append(msg.as_str());
                out
            },
            CodegenError::Io(err) => {
                let mut out = String::from_str("I/O error during code generation: ");
                out.append(err.as_str());
                out
            },
            CodegenError::TargetEmission(msg) => {
                let mut out = String::from_str("failed to emit object code: ");
                out.append(msg.as_str());
                out
            },
            CodegenError::Link { driver, status, stderr } => {
                let mut out = String::from_str("linker `");
                out.append(driver.as_str());
                out.append("` failed (exit status ");
                match status {
                    Some(code) => {
                        out.append("Some(");
                        out.append(signed_decimal(*code).as_str());
                        out.append(")");
                    },
                    None => out.append("None"),
                }
                out.append("):\n");
                out.append(stderr.as_str());
                out
            },
            CodegenError::Unsupported { construct } => {
                let mut out = String::from_str("internal error: no code generation support yet for: ");
                out.append(construct.as_str());
                out
            },
        }
    }

    /// A construct without a lowering yet.
    pub fn unsupported(construct: String) -> (r: CodegenError)
        ensures
            r matches CodegenError::Unsupported { construct: c } && c@ == construct@,
    {
        CodegenError::Unsupported { construct }
    }
}

} // verus!
