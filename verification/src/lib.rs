//! A minimal newsletter-subscription service, verified.
//!
//! The library holds everything the service decides: parsing and validating
//! `application/x-www-form-urlencoded` request bodies ([`form`]), the
//! subscription records and the store they land in ([`subscription`]), and
//! the mapping from a request to an HTTP status ([`routes`]). The HTTP
//! server, the connection pool and the SQL insert live outside the library
//! and consume these functions.

pub mod form;
pub mod routes;
pub mod subscription;
