//! Core logic of the Char command-line tools and the file-sync core:
//! command matching, transcript bookkeeping, log-line styling, error
//! values and path helpers, each with a machine-checked contract.

pub mod text;
pub mod commands;
pub mod entry;
pub mod textarea;
pub mod error;
pub mod connect;
pub mod logs;
pub mod stream;
pub mod transcript;
pub mod stt;
pub mod fs_sync;
pub mod plugins;
pub mod listen;
pub mod entry_ui;
pub mod models;
pub mod rich;
pub mod batch;
