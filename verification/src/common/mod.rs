pub mod ipc;
pub mod sandbox;
