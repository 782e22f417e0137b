//! Authentication core of a small question-and-answer web service:
//! password hashing, session tokens with a validity window, the request
//! gate in front of protected routes, and the account flows of
//! registration and login.

pub mod auth;
pub mod claims;
pub mod config;
pub mod decimal;
pub mod error;
pub mod pagination;
pub mod password;
pub mod token;
pub mod types;
