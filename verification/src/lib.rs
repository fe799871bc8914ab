pub mod bridge;
pub mod cli;
pub mod commands;
pub mod config;
pub mod graph;
pub mod hash;
pub mod http;
pub mod loader;
pub mod lock;
pub mod manifest;
pub mod order;
pub mod overlay;
pub mod packwiz;
pub mod paths;
pub mod provider;
pub mod providers;
pub mod provision;
pub mod resolve;
pub mod side;
pub mod text;
pub mod ui;
pub mod version_req;
pub mod versions;
