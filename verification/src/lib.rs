//! Verified core of the SRS website worker: contact intake, Discord
//! interactions and the content pull-request flow.
pub mod text;
pub mod clock;
pub mod slug;
pub mod signature;
pub mod json;
pub mod turnstile;
pub mod contacts;
pub mod discord;
pub mod form;
pub mod content;
pub mod pull_request;
