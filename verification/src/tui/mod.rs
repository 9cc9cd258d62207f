//! Text formatting of the terminal interface.
pub mod transcript;
pub mod tool_render;
pub mod history;
pub mod slash;
pub mod keys;
pub mod render;
pub mod panels;
pub mod worker;
pub mod provider;
pub mod selection;
pub mod geometry;
pub mod rollout;
pub mod theme;
pub mod commands;
pub mod onboarding;
pub mod configure;
pub mod worker_loop;
