//! The statements that are needed before the store's tables exist.

use vstd::prelude::*;

verus! {

/// The query that finds out whether a database of this name exists.
pub open spec fn database_exists_text(name: Seq<char>) -> Seq<char> {
    "SELECT 1 FROM pg_database WHERE datname = '"@ + name + "';"@
}

/// The statement that creates a database of this name.
pub open spec fn create_database_text(name: Seq<char>) -> Seq<char> {
    "CREATE DATABASE "@ + name + ";"@
}

/// Writes the query that finds out whether a database of this name exists.
pub fn database_exists_query(name: &str) -> (r: String)
    ensures
        r@ == database_exists_text(name@),
{
    let mut out = String::new();
    out.append("SELECT 1 FROM pg_database WHERE datname = '");
    out.append(name);
    out.append("';");
    proof {
        assert(out@ =~= database_exists_text(name@));
    }
    out
}

/// Writes the statement that creates a database of this name.
pub fn create_database_query(name: &str) -> (r: String)
    ensures
        r@ == create_database_text(name@),
{
    let mut out = String::new();
    out.append("CREATE DATABASE ");
    out.append(name);
    out.append(";");
    proof {
        assert(out@ =~= create_database_text(name@));
    }
    out
}

} // verus!
