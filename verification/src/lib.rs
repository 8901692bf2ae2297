//! Verified core of a newsletter-subscription service.
//!
//! The library holds the logic of the service: parsing of
//! `application/x-www-form-urlencoded` subscription submissions,
//! environment-layered configuration resolution with secret-safe
//! connection-string construction, the handler's mapping of outcomes to
//! HTTP status codes, the shape of stored subscriber rows, and the state
//! machine that provisions an ephemeral test database. The surrounding
//! process (HTTP server, database driver, file reading) lives outside and
//! hands the library plain values.

pub mod configuration;
pub mod form;
pub mod provision;
pub mod routes;
pub mod secret;
pub mod store;
