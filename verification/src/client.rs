pub mod builder;
pub mod io;
pub mod sse;
pub mod types;
