//! Core logic of the OBS CHZZK extension: text handling, CHZZK API request
//! and response shaping, the OAuth callback check, Discord presence payloads,
//! and the settings model.

pub mod text;
pub mod json;
pub mod chzzk;
pub mod oauth_server;
pub mod discord;
pub mod settings;
pub mod storage;
pub mod system;
pub mod oauth;
pub mod presence;
pub mod logging;
pub mod plugin;
pub mod live_dock;
pub mod dock_payload;
