//! What can go wrong while an inventory is read.

use vstd::prelude::*;

verus! {

/// The error of the `csv` crate; nothing of its inside is known here.
#[verifier::external_type_specification]
#[verifier::external_body]
pub struct ExCsvError(csv::Error);

/// The I/O error of the standard library; nothing of its inside is known here.
#[verifier::external_type_specification]
#[verifier::external_body]
pub struct ExIoError(std::io::Error);

/// Why an inventory could not be read.
#[derive(Debug)]
pub enum AdvisorError {
    /// The source could not be opened or read.
    Io(std::io::Error),
    /// A class or slot name is not one of the known ones, or a row lacks a column.
    InvalidParse,
    /// The text is not well-formed CSV.
    CSV(csv::Error),
    /// Any other failure, with its message.
    Other(&'static str),
}

} // verus!
