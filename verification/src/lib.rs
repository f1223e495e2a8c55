//! A local OAuth redirect-capture core with its two collaborators: parsing and
//! validation of the single browser redirect that carries an authorization
//! token, packaging files into a compressed archive, and assembling and
//! interpreting a deployment request.

pub mod archive;
pub mod auth;
pub mod deploy;
