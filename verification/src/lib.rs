//! Package metadata for a package manager: versions, architectures and
//! dependency constraints, with verified parsers and renderers.

pub mod text;
pub mod version;
pub mod ordering;
pub mod errors;
pub mod architecture;
pub mod dependency;
pub mod package;
