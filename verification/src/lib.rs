//! Verified core of the Maxima game launcher library.

pub mod search;
pub mod assoc;
pub mod service_layer;
pub mod text;
pub mod byte_buffer;
pub mod zip;
pub mod crypto;
pub mod launch;
pub mod manifest;
pub mod library;
pub mod content;
pub mod gamesettings;
pub mod gameinfo;
pub mod hardware;
pub mod maxima;
pub mod lsx;
pub mod ooa;
pub mod wine;
pub mod cloudsync;
pub mod auth;
pub mod auth_storage;
pub mod native;
pub mod github;
pub mod logging;
pub mod wmi;
pub mod rtm;
pub mod downloader;
pub mod bootstrap;
pub mod exclusion;
pub mod lsx_account;
pub mod pattern;
