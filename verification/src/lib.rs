//! The decisions behind a web console for a multi-port sampling device.
pub mod address;
pub mod api;
pub mod capture;
pub mod captures;
pub mod clock;
pub mod config;
pub mod control;
pub mod devices;
pub mod float;
pub mod histogram;
pub mod init;
pub mod push;
pub mod run;
pub mod settings;
pub mod spectrum;
pub mod text;
