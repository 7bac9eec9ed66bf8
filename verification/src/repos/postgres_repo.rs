//! The handle on the Postgres database that holds the store.

use vstd::prelude::*;
use vstd::string::*;

verus! {

/// Names the Postgres database that holds the store.
#[derive(Debug)]
pub struct PostgresRepo {
    pub url: String,
}

impl Clone for PostgresRepo {
    fn clone(&self) -> (copy: Self)
        ensures
            copy == *self,
    {
        PostgresRepo { url: self.url.clone() }
    }
}

impl PostgresRepo {
    /// A handle on the database at `url`. Nothing is opened yet.
    pub fn new(url: &str) -> (repo: Self)
        ensures
            repo.url@ == url@,
    {
        PostgresRepo { url: String::from_str(url) }
    }
}

} // verus!
