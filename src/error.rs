use vstd::prelude::*;

verus! {

/// Reasons a scan of a GRIB file stops.
#[derive(Debug, Clone, Copy, PartialEq, Eq)]
pub enum Grib1Error {
    /// The bytes ran out: a header, a section or a message reaches past the end of the file.
    IoError,
    /// The message does not start with the letters `GRIB`.
    WrongHeader,
    /// The edition byte is not 1; it carries the byte that was found.
    WrongVersion(u8),
    /// The packed data ran out before the expected number of values was read.
    DataDecodeFailed,
    /// A section is too short to hold its fixed fields, or a message reports a length of zero.
    Malformed,
}

} // verus!
