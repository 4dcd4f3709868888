pub mod channel;
pub mod compat;
pub mod download;
pub mod config;
pub mod error;
pub mod manifest;
pub mod parse;
pub mod platform;
pub mod render;
pub mod version;
pub mod version_spec;

pub use platform::Arch;
pub use platform::Os;
