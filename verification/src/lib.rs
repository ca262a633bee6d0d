//! Verified core of the Easy English language-learning web service:
//! the data model, the token payload format, cookie parsing, SQL query
//! text, error messages and the decisions taken by the request handlers.

pub mod check_user_api_middleware;
pub mod claims_parser;
pub mod controllers;
pub mod cookie;
pub mod gpt_module;
pub mod json_claims;
pub mod jwt;
pub mod models;
pub mod render_temps;
pub mod text;
pub mod translate_module;

