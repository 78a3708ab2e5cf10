//! The data each page is rendered from, and the few questions the pages ask
//! of it. The markup itself is rendered outside the library.
pub mod admin;
pub mod auth;
pub mod docs;
pub mod public;
pub mod sparks;
