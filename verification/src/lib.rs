//! Verified core of the DgrLauncher Minecraft launcher.
pub mod text;
pub mod json;
pub mod downloader;
pub mod launcher;
pub mod digest;
pub mod auth;
pub mod instances;
pub mod modrinth;
pub mod settings;
pub mod session;
pub mod window;
pub mod i18n;
pub mod update_manager;
pub mod system_java;
pub mod screens;
