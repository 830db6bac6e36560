//! Error types of `std` and of outside crates that the library carries
//! through without looking inside, and their human-readable texts.
use vstd::prelude::*;

verus! {

/// `std::io::Error`, carried opaquely.
#[verifier::external_type_specification]
#[verifier::external_body]
pub struct ExIoError(std::io::Error);

/// `reqwest::Error`, carried opaquely.
#[verifier::external_type_specification]
#[verifier::external_body]
pub struct ExHttpError(reqwest::Error);

/// `serde_json::Error`, carried opaquely.
#[verifier::external_type_specification]
#[verifier::external_body]
pub struct ExJsonError(serde_json::Error);

/// `sqlx::Error`, carried opaquely.
#[verifier::external_type_specification]
#[verifier::external_body]
pub struct ExDbError(sqlx::Error);

/// The `Display` text of an I/O error (`<std::io::Error as Display>`).
/// Nothing is claimed about the text.
#[verifier::external_body]
pub(crate) fn io_error_text(e: &std::io::Error) -> String {
    e.to_string()
}

/// The `Display` text of an HTTP client error (`<reqwest::Error as
/// Display>`). Nothing is claimed about the text.
#[verifier::external_body]
pub(crate) fn http_error_text(e: &reqwest::Error) -> String {
    e.to_string()
}

/// The `Display` text of a JSON error (`<serde_json::Error as
/// Display>`). Nothing is claimed about the text.
#[verifier::external_body]
pub(crate) fn json_error_text(e: &serde_json::Error) -> String {
    e.to_string()
}

/// The `Display` text of a database error (`<sqlx::Error as Display>`).
/// Nothing is claimed about the text.
#[verifier::external_body]
pub(crate) fn db_error_text(e: &sqlx::Error) -> String {
    e.to_string()
}

} // verus!
