pub mod auth;
pub mod calendar;
pub mod conflict;
pub mod executor;
pub mod ids;
pub mod json;
pub mod models;
pub mod money;
pub mod payload;
pub mod pull;
pub mod push;
pub mod scheduler;
pub mod services;
pub mod state_machine;
pub mod store;
pub mod text;
pub mod versions;
