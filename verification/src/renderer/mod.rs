pub mod capture;
pub mod flags;
pub mod host;
pub mod load;
pub mod paint;
