use vstd::prelude::*;

verus! {

#[verifier::external_type_specification]
#[verifier::external_body]
pub struct ExPostgresError(tokio_postgres::Error);

/// Failure of a persistence operation.
pub enum DbError {
    /// An error originating from the Postgres backend.
    Postgres(tokio_postgres::Error),
    /// Trying to insert the same data twice.
    Duplicate,
}

impl From<tokio_postgres::Error> for DbError {
    fn from(e: tokio_postgres::Error) -> (r: DbError)
        ensures
            r == DbError::Postgres(e),
    {
        DbError::Postgres(e)
    }
}

impl vstd::std_specs::convert::FromSpecImpl<tokio_postgres::Error> for DbError {
    open spec fn obeys_from_spec() -> bool {
        true
    }

    open spec fn from_spec(e: tokio_postgres::Error) -> DbError {
        DbError::Postgres(e)
    }
}

/// The outcome of the duplicate check that precedes storing a signature:
/// refused exactly when some row already holds the signature bytes.
pub fn check_fresh(matching_rows: usize) -> (r: Result<(), DbError>)
    ensures
        r is Ok <==> matching_rows == 0,
        r is Err ==> r->Err_0 is Duplicate,
{
    if matching_rows == 0 {
        Ok(())
    } else {
        Err(DbError::Duplicate)
    }
}

/// Relies on the `Display` impl of `tokio_postgres::Error` for the backend's
/// own description of the failure.
#[verifier::external_body]
fn postgres_message(e: &tokio_postgres::Error) -> String {
    e.to_string()
}

impl DbError {
    /// A human-readable description of the failure.
    pub fn message(&self) -> (r: String)
        ensures
            *self is Duplicate ==> r@ == "Trying to insert a duplicated entry"@,
    {
        match self {
            DbError::Postgres(e) => postgres_message(e),
            DbError::Duplicate => String::from_str("Trying to insert a duplicated entry"),
        }
    }

    /// Whether this is the duplicate-entry error.
    pub fn is_duplicate(&self) -> (r: bool)
        ensures
            r == (*self is Duplicate),
    {
        match self {
            DbError::Postgres(_) => false,
            DbError::Duplicate => true,
        }
    }
}

} // verus!
