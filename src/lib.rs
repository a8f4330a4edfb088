//! Script directives: extraction from comment lines, a typed and merged
//! configuration built from them, canonical Nix expressions, a fingerprint
//! over the resolved configuration, and the decisions of the build cache.

pub mod syntax;
pub mod expr;
pub mod text;
pub mod raw;
pub mod extract;
pub mod directives;
pub mod resolve;
pub mod fingerprint;
pub mod cache;
pub mod haskell;
