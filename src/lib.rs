//! Authentication and session lifecycle: OAuth identity resolution, signed
//! access credentials, and rotating refresh sessions.
//!
//! Storage is modelled by three tables whose uniqueness constraints are kept as
//! invariants: users, OAuth links, and refresh sessions (held only as hashes).

pub mod errors;
pub mod model;
pub mod seq_facts;

pub mod decimal;
pub mod secret;
pub mod jwt;

pub mod refresh_token_repository;
pub mod user_repository;
pub mod oauth_account_repository;

pub mod token_service;
pub mod user_dto;
pub mod user_service;
pub mod auth;

pub mod assist_dto;
pub mod memo_dto;
pub mod gemini_mock;
