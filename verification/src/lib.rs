//! Discovery and normalization of npm/JavaScript package workspaces.
//!
//! The crate walks a directory ancestry looking for a `package.json`
//! manifest, then normalizes the manifest's loosely-typed contents into a
//! strict package descriptor together with its enclosing workspace
//! descriptor.

pub mod discover;
pub mod laws;
pub mod locate;
pub mod model;
pub mod normalize;
pub mod path;
pub mod text;
