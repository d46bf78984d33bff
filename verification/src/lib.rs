//! The core of a self-hosted URL shortener: the rules for short tokens and
//! target URLs, the table of links with its uniqueness guarantee, the hit
//! counter, the check that decides who may change or list links, and the
//! decisions behind each endpoint of the service.
//!
//! Everything here is plain data in, plain data out. Serving HTTP, keeping
//! cookies and writing the table to disk are left to the program built on top.

pub mod auth;
pub mod engine;
pub mod generate;
pub mod laws;
pub mod link;
pub mod request;
pub mod store;
pub mod syntax;
pub mod text;
