//! Storage of settings and reads, and the errors storage reports.
use vstd::prelude::*;
use vstd::string::StringExecFns;

pub mod memstore;

verus! {

#[derive(Debug)]
pub enum DBError {
    ConnectionError(String),
    InvalidVersionError(String),
    DatabaseTooNew(String),
    MutexError(String),
    DataRetrievalError(String),
    DataInsertionError(String),
    DataDeletionError(String),
    NotFound,
}

/// The text a storage error is shown with.
pub open spec fn db_error_text(e: DBError) -> Seq<char> {
    match e {
        DBError::ConnectionError(v) => "Connection Error: "@ + v@,
        DBError::InvalidVersionError(v) => "Invalid Database Version: "@ + v@,
        DBError::DatabaseTooNew(v) => "Database Version Too New: "@ + v@,
        DBError::MutexError(v) => "Mutex Error: "@ + v@,
        DBError::DataRetrievalError(v) => "Error Retrieving Data: "@ + v@,
        DBError::DataInsertionError(v) => "Error Inserting Data: "@ + v@,
        DBError::DataDeletionError(v) => "Error Deleting Data: "@ + v@,
        DBError::NotFound => "Data Not Found"@,
    }
}

impl DBError {
    /// The error as text, as it is shown to a user.
    pub fn to_text(&self) -> (r: String)
        ensures
            r@ == db_error_text(*self),
    {
        let (prefix, detail): (&str, Option<&String>) = match self {
            DBError::ConnectionError(v) => ("Connection Error: ", Some(v)),
            DBError::InvalidVersionError(v) => ("Invalid Database Version: ", Some(v)),
            DBError::DatabaseTooNew(v) => ("Database Version Too New: ", Some(v)),
            DBError::MutexError(v) => ("Mutex Error: ", Some(v)),
            DBError::DataRetrievalError(v) => ("Error Retrieving Data: ", Some(v)),
            DBError::DataInsertionError(v) => ("Error Inserting Data: ", Some(v)),
            DBError::DataDeletionError(v) => ("Error Deleting Data: ", Some(v)),
            DBError::NotFound => ("Data Not Found", None),
        };
        let mut out = String::from_str(prefix);
        if let Some(v) = detail {
            out.append(v.as_str());
        }
        out
    }
}

} // verus!
