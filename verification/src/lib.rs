//! Shortens file system paths for display: long fragments give way to
//! abbreviations, and a symbol stands for the home directory.
pub mod compactor;
pub mod fragment;
pub mod segment;
pub mod text;

pub use compactor::Compactor;
pub use fragment::{abbreviate, compact_fragment, mark};
pub use segment::{get_home, Segment};
