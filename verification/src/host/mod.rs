pub mod render;
pub mod run;
