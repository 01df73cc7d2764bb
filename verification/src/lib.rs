//! CORS decision-making and response-header generation.
use vstd::prelude::*;

pub mod allowed_headers;
pub mod allowed_methods;
pub mod constants;
pub mod context;
pub mod cors;
pub mod exposed_headers;
pub mod header_builder;
pub mod headers;
pub mod normalized_request;
pub mod options;
pub mod origin;
pub mod pattern;
pub mod result;
pub mod text;
pub mod timing_allow_origin;
pub mod util;

pub use allowed_headers::AllowedHeaders;
pub use allowed_methods::AllowedMethods;
pub use context::RequestContext;
pub use cors::Cors;
pub use exposed_headers::ExposedHeaders;
pub use headers::Headers;
pub use normalized_request::NormalizedRequest;
pub use options::{CorsOptions, ValidationError};
pub use origin::{Origin, OriginDecision, OriginMatcher, PatternError};
pub use result::{
    CorsDecision, CorsError, PreflightRejection, PreflightRejectionReason, SimpleRejection, SimpleRejectionReason,
};
pub use timing_allow_origin::TimingAllowOrigin;
pub use util::{equals_ignore_case, normalize_lower};

verus! {
}
