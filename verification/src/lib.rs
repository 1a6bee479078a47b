//! The verified core of a self-hosted GitHub triage bot.

pub mod adapters;
pub mod autoclose;
pub mod cli;
pub mod config;
pub mod db;
pub mod decimal;
pub mod dispatch;
pub mod foreign;
pub mod gh_proxy;
pub mod gh_writeback;
pub mod hmac_auth;
pub mod host_tools;
pub mod json;
pub mod sandbox;
pub mod text;
pub mod webhook;
pub mod worker;
