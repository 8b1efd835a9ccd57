//! Resolution of species names to taxa, and the derivation of a stable group
//! name for each species from its ancestor chain.
pub mod activity;
pub mod cache;
pub mod classify;
pub mod critters;
pub mod dms;
pub mod errors;
pub mod group;
pub mod names;
pub mod options;
pub mod policy;
pub mod remote;
pub mod species;
pub mod text;
