use vstd::prelude::*;

verus! {

/// Typed failure modes of the format pipeline.  Every failure is surfaced as
/// a value of this type; no operation in the library panics or retries.
#[derive(Clone, Copy, Debug, PartialEq, Eq, Structural)]
pub enum FormatError {
    /// The format expression contains no field tokens.
    EmptyFormatError,
    /// The token sequence cannot be synthesized into a pattern.
    CompileError,
    /// The pattern did not match the line anywhere.
    NoMatchError,
    /// The year is absent from both the line and the context.
    MissingYearError,
    /// A captured field violates calendar bounds, or a computed timestamp
    /// does not fit in a signed 64-bit millisecond count.
    InvalidFieldError,
    /// No registry candidate matched the line.
    NoFormatMatchedError,
    /// No registry candidate matched every sampled line of a file.
    NoFormatDetectedError,
    /// The sample drawn from a file contained no non-empty line.
    EmptyFileError,
}

} // verus!
