use vstd::prelude::*;

verus! {

#[verifier::external_type_specification]
#[verifier::external_body]
pub struct ExCsvError(csv::Error);

#[verifier::external_type_specification]
#[verifier::external_body]
pub struct ExJsonError(serde_json::Error);

/// The failures that the library reports.
#[derive(Debug)]
pub enum AppError {
    /// The CSV writer refused a record.
    Csv(csv::Error),
    /// JSON encoding failed.
    Json(serde_json::Error),
    /// A setting is missing or wrong.
    Config(String),
    /// A reply could not be read.
    Parse(String),
    /// A dictionary source failed.
    Provider(String),
}

} // verus!
