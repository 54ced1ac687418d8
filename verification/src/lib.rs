//! Schema-driven validation of tree-shaped input data, plus the virtual file
//! layer that a document compiler consults: an identity-keyed store that
//! decodes raw bytes into a reusable source representation exactly once, and
//! a facade pinning a standard library and font metadata for one compilation
//! session.

pub mod codec;
pub mod errors;
pub mod progress;
pub mod project;
pub mod schema;
pub mod store;
pub mod text;
pub mod value;
pub mod world;

pub use value::Value;
