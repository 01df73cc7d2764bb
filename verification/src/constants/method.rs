//! HTTP method names.
use vstd::prelude::*;

verus! {

pub const DELETE: &'static str = "DELETE";
pub const GET: &'static str = "GET";
pub const HEAD: &'static str = "HEAD";
pub const OPTIONS: &'static str = "OPTIONS";
pub const PATCH: &'static str = "PATCH";
pub const POST: &'static str = "POST";
pub const PUT: &'static str = "PUT";

} // verus!
