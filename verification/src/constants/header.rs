//! HTTP header names used by the CORS protocol.
use vstd::prelude::*;

verus! {

pub const ACCESS_CONTROL_ALLOW_ORIGIN: &'static str = "Access-Control-Allow-Origin";
pub const ACCESS_CONTROL_ALLOW_METHODS: &'static str = "Access-Control-Allow-Methods";
pub const ACCESS_CONTROL_ALLOW_HEADERS: &'static str = "Access-Control-Allow-Headers";
pub const ACCESS_CONTROL_ALLOW_CREDENTIALS: &'static str = "Access-Control-Allow-Credentials";
pub const ACCESS_CONTROL_ALLOW_PRIVATE_NETWORK: &'static str = "Access-Control-Allow-Private-Network";
pub const ACCESS_CONTROL_EXPOSE_HEADERS: &'static str = "Access-Control-Expose-Headers";
pub const ACCESS_CONTROL_MAX_AGE: &'static str = "Access-Control-Max-Age";
pub const ACCESS_CONTROL_REQUEST_HEADERS: &'static str = "Access-Control-Request-Headers";
pub const ACCESS_CONTROL_REQUEST_METHOD: &'static str = "Access-Control-Request-Method";
pub const ACCESS_CONTROL_REQUEST_PRIVATE_NETWORK: &'static str = "Access-Control-Request-Private-Network";
pub const TIMING_ALLOW_ORIGIN: &'static str = "Timing-Allow-Origin";
pub const ORIGIN: &'static str = "Origin";
pub const VARY: &'static str = "Vary";

} // verus!
