//! LSP side of the bridge: language registry, message framing, requests and
//! the replies they produce.

pub mod registry;
pub mod java_virtual_uri;
pub mod types;
pub mod process;
pub mod client;
pub mod download;
pub mod watcher;

pub use registry::{LspConfig, LspRegistry};
pub use client::LspClient;
pub use watcher::{FileChangeEvent, FileChangeKind};
pub use java_virtual_uri::JavaVirtualUriHandler;
