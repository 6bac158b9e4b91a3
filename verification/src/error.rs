use vstd::prelude::*;

verus! {

/// Why a single file could not be anonymized.  Every failure is recoverable
/// at the batch level: the file is skipped and the batch goes on.
#[derive(Clone, Copy, Debug, PartialEq, Eq, Structural)]
pub enum AnonymizeError {
    /// The classification attribute (image type) is absent or empty, or the
    /// caller could not open the file at all.
    NotDicom,
    /// The device serial number contains a character other than a decimal
    /// digit.
    InvalidSerialNumber,
    /// A date or time attribute is too short for the required character
    /// slices, or the concatenated identifier digits do not form an integer
    /// in range.
    MalformedIdentitySeed,
    /// The study instance UID, with its dots replaced by plus signs, is not
    /// a valid arithmetic expression.
    ExpressionEvaluationError,
    /// The instance number attribute is not an unsigned decimal integer in
    /// range.
    InvalidInstanceNumber,
    /// The caller could not create the output directory for this file.
    DirectoryCreationFailure,
}

} // verus!
