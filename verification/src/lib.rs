pub mod text;
pub mod common;
pub mod frontend;
pub mod ipcchannel;
pub mod types;
pub mod electron_types;
pub mod electron_api_types;
pub mod node_types;
pub mod node_api_types;
pub mod addon_types;
pub mod backend;
pub mod node;
pub mod dialog;
pub mod electron;
pub mod fs_api;
pub mod http_api;
pub mod child_process;
pub mod menu;
pub mod dispatch;
pub mod addons;
pub mod handles;
