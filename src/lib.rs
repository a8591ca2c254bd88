//! Structural fact extraction: a portable fact model for program types and
//! expressions, the elevation of a host compiler's resolved types and
//! expressions into that model, structural queries over a program, the
//! marshalling of facts to and from a scripting host, and the negotiation of
//! the driver version a script asks for.

pub mod bridge;
pub mod diag;
pub mod encode;
pub mod expr_elevate;
pub mod fact;
pub mod installed;
pub mod location;
pub mod native;
pub mod queries;
pub mod text;
pub mod type_elevate;
pub mod versioning;
