pub mod api;
pub mod cef;
pub mod cli;
pub mod common;
pub mod host;
pub mod napi;
pub mod proxy;
pub mod renderer;
pub mod text;
pub mod video;
