//! Verified core logic of the Cursor BYOK server.
pub mod error;
pub mod text;
pub mod token_count;
pub mod json;
pub mod model;
pub mod compaction;
pub mod run;
pub mod stream;
pub mod json_stream;
pub mod manifest;
pub mod plugin_data;
pub mod model_catalog;
pub mod derived_state;
pub mod interaction;
pub mod router;
pub mod network;
pub mod web_url;
