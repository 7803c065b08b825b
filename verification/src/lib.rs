pub mod cni;
pub mod codec;
pub mod engine;
pub mod json;
pub mod net;
pub mod text;
