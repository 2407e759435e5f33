//! A verified archive engine: packs a directory tree, given as plain entry
//! records, into a zip container held in memory, and turns such a container
//! back into a plan of filesystem actions that provably never leave the
//! extraction root.

pub mod entries;
pub mod path_map;
pub mod zipio;
pub mod archive;
pub mod extract;
pub mod laws;
