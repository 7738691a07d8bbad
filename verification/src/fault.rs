//! Why a request of the database is refused.

use arrow_schema::ArrowError;
use vstd::prelude::*;

verus! {

/// Why a function of the worker gives no result.
#[derive(Debug)]
pub enum Fault {
    /// An argument is not of a kind that the function takes; the text says why.
    Value(String),
    /// Arrow refused the columns of a result.
    Arrow(ArrowError),
}

} // verus!
