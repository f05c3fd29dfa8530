//! The token and session lifecycle core of an authentication service:
//! paired short-lived access and long-lived refresh tokens, their signed
//! compact encoding, server-side session tracking keyed by refresh token,
//! and the guard logic that validates incoming bearer credentials.

pub mod claims;
pub mod content;
pub mod errors;
pub mod guard;
pub mod jwt;
pub mod service;
pub mod session;
pub mod text;
pub mod users;
