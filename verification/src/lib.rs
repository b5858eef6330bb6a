//! A verified paperdoll instance store.
//!
//! A paperdoll is a composable 2D character: a *doll* exposes a fixed set of
//! *slots*, and each slot may hold one of several candidate *fragments*.
//! The catalog of doll, slot and fragment definitions, and the pixel
//! compositing of a selection into a raster image, come from the `paperdoll`
//! crate (re-exported by `paperdoll_tar`) and are treated as an opaque
//! collaborator.
//!
//! This crate owns everything with non-trivial invariants: instance id
//! allocation, the per-instance slot-to-fragment selection state and its
//! legality rules, deterministic forward and backward cycling through a
//! slot's candidates, and the texture cache that keeps a rendered image in
//! sync with the selection state.

#![verifier::loop_isolation(false)]

pub mod catalog;
pub mod errors;
pub mod laws;
pub mod selector;
pub mod store;

pub use catalog::{DollDef, FragmentDef, RasterImage, SlotDef};
pub use errors::PaperdollError;
pub use store::{PaperdollAsset, PaperdollId, PaperdollInstance};
