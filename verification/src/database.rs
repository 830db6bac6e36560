//! The ingestion store's factory. Opening the PostgreSQL pool is the
//! caller's work.
use vstd::prelude::*;

verus! {

/// Builds PostgreSQL-backed job stores.
pub struct PostgresDatabaseFactory;

} // verus!
