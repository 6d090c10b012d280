//! Declarative system setup: configuration model, validation rules, and the
//! pure decision logic behind each provisioning operation.
pub mod text;
pub mod sorted;
pub mod assets;
pub mod init;
pub mod platform;
pub mod weburl;
pub mod patterns;
pub mod paths;
pub mod versions;
pub mod operations;
pub mod config;
pub mod domain;
pub mod json;
pub mod json_helpers;
pub mod digest;
pub mod release;
