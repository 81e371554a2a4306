//! A quiz-taking engine: sampled practice tests over a question catalog,
//! answered one question at a time, scored and reviewed afterwards.

pub mod error;
pub mod filter;
pub mod text;
pub mod catalog;
pub mod session;
pub mod models;
pub mod store;
pub mod laws;
pub mod jwt;
pub mod password;
pub mod users;
pub mod subscriptions;
