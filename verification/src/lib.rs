//! Operator toolkit for a subscription gateway.
pub mod browser;
pub mod chunks;
pub mod client;
pub mod commands;
pub mod config;
pub mod http;
pub mod json;
pub mod mail;
pub mod models;
pub mod store;
pub mod text;
pub mod totp;
pub mod web;
