pub mod patch;
pub mod text;
pub mod ls;
pub mod registry;
pub mod mcp;
pub mod server;
pub mod tui;
