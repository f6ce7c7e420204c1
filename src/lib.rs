//! Credential-and-token core of the Handly backend: password hashing, signed
//! access/refresh tokens, and the validation rules that gate registration,
//! login and service listings.

mod text;
pub mod decimal;
pub mod json_string;
pub mod claims;
pub mod token;
pub mod models;
pub mod password;
pub mod auth;
pub mod validation;
pub mod service_rules;
pub mod session;
pub mod uploads;
