//! A media-aware reverse proxy core: host validation, header policy, upstream
//! request planning, manifest localization and response assembly.

pub mod text;
pub mod headers;
pub mod error;
pub mod domain;
pub mod query;
pub mod request;
pub mod localize;
pub mod manifest;
pub mod response;
pub mod content;
pub mod assets;
pub mod config;
