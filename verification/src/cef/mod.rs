pub mod app;
pub mod cdp;
pub mod client;
pub mod mac;
pub mod resource;
