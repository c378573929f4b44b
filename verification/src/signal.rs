//! The records a backup holds, as plain values.
//!
//! A decoded frame fills exactly one of the fields of [`BackupFrame`]. How a
//! frame is decoded from its plaintext is not this crate's business.

use vstd::prelude::*;

pub mod sql_statement;

verus! {

/// A statement to run against the restored database.
#[derive(Clone, Debug, PartialEq)]
pub struct SqlStatement {
    pub statement: Option<String>,
    pub parameters: Vec<sql_statement::SqlParameter>,
}

/// One entry of a preferences file.
#[derive(Clone, Debug, PartialEq)]
pub struct SharedPreference {
    pub file: Option<String>,
    pub key: Option<String>,
    pub value: Option<String>,
}

/// Announces an attachment of `length` bytes that follows the frame.
#[derive(Clone, Debug, PartialEq)]
pub struct Attachment {
    pub row_id: Option<u64>,
    pub attachment_id: Option<u64>,
    pub length: Option<u32>,
}

/// Announces an avatar of `length` bytes that follows the frame.
#[derive(Clone, Debug, PartialEq)]
pub struct Avatar {
    pub name: Option<String>,
    pub length: Option<u32>,
}

/// The version of the database schema the statements are written for.
#[derive(Clone, Debug, PartialEq)]
pub struct DatabaseVersion {
    pub version: Option<u32>,
}

/// The unencrypted record at the start of a backup.
#[derive(Clone, Debug, PartialEq)]
pub struct Header {
    pub iv: Option<Vec<u8>>,
    pub salt: Option<Vec<u8>>,
}

/// One record of a backup.
#[derive(Clone, Debug, PartialEq)]
pub struct BackupFrame {
    pub header: Option<Header>,
    pub statement: Option<SqlStatement>,
    pub preference: Option<SharedPreference>,
    pub attachment: Option<Attachment>,
    pub version: Option<DatabaseVersion>,
    pub end: Option<bool>,
    pub avatar: Option<Avatar>,
}

} // verus!
