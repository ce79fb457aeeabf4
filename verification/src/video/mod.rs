pub mod decode;
pub mod encoder;
pub mod scheme;
pub mod scheme_url;
pub mod session;
