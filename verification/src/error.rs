//! Runtime failures of the generated methods, the query builder and the
//! connection registry. Every fallible operation reports one of these;
//! nothing here panics on ordinary misuse.

use vstd::prelude::*;

verus! {

#[derive(Debug, PartialEq)]
pub enum DbError {
    /// The registry was consulted before any pools were installed.
    NotInitialized,
    /// A second initialization was attempted outside test mode.
    AlreadyInitialized,
    /// The registry holds no pool for the requested datasource.
    NoPoolFound,
    /// A statement that had to touch a row touched none.
    RowNotFound,
    /// An insert-update was built with an empty update-field list.
    EmptyUpdateFields,
    /// A statement was compiled without a target table.
    NoTableName,
    /// An update was compiled without a single SET field.
    NoSetFields,
    /// An insert was compiled without a single VALUES row.
    NoValues,
    /// The insert itself succeeded, but the follow-up fetch of generated
    /// values failed: the row is persisted yet could not be returned.
    InsertedButNotReturned,
}

pub open spec fn spec_db_error_message(e: DbError) -> Seq<char> {
    match e {
        DbError::NotInitialized => "Pools is empty."@,
        DbError::AlreadyInitialized => "Failed to set pools."@,
        DbError::NoPoolFound => "No pool found for key."@,
        DbError::RowNotFound => "row not found"@,
        DbError::EmptyUpdateFields => "Empty update fields."@,
        DbError::NoTableName => "No table name."@,
        DbError::NoSetFields => "No SET fields."@,
        DbError::NoValues => "No VALUES."@,
        DbError::InsertedButNotReturned => "insert succeeded, but fetching generated values failed"@,
    }
}

impl DbError {
    /// A human-readable description of the failure.
    pub fn message(&self) -> (r: String)
        ensures
            r@ == spec_db_error_message(*self),
    {
        match self {
            DbError::NotInitialized => String::from_str("Pools is empty."),
            DbError::AlreadyInitialized => String::from_str("Failed to set pools."),
            DbError::NoPoolFound => String::from_str("No pool found for key."),
            DbError::RowNotFound => String::from_str("row not found"),
            DbError::EmptyUpdateFields => String::from_str("Empty update fields."),
            DbError::NoTableName => String::from_str("No table name."),
            DbError::NoSetFields => String::from_str("No SET fields."),
            DbError::NoValues => String::from_str("No VALUES."),
            DbError::InsertedButNotReturned => String::from_str(
                "insert succeeded, but fetching generated values failed",
            ),
        }
    }
}

} // verus!
