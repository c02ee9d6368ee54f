//! Verified core of the vpsguard configuration engine.

pub mod text;
pub mod types;
pub mod action;
pub mod platform;
pub mod config;
pub mod common;
pub mod ssh;
pub mod firewall;
pub mod users;
pub mod system;
pub mod fail2ban;
pub mod monitoring;
pub mod caddy;
pub mod docker;
pub mod app;
pub mod postgres;
pub mod redis;
pub mod tailscale;
pub mod updates;
pub mod recipes;
pub mod catalog;
pub mod render;
pub mod dashboard;
pub mod inventory;
pub mod remote;
pub mod lockout;
pub mod history;
pub mod merge;
pub mod document;
