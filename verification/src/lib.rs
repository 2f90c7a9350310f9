//! Token-tree backed server side of the procedural macro bridge.

pub mod bridge;
pub mod diagnostic;
pub mod escape;
pub mod interner;
pub mod laws;
pub mod literal;
pub mod numeral;
pub mod server;
pub mod text;
pub mod token_stream;
pub mod tt;
