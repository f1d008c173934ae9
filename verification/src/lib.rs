//! Text encoding, layout arithmetic and data-import logic for a Game Boy
//! Advance party menu, with its behaviour stated and proved.
pub mod charmap;
pub mod input;
pub mod future;
pub mod data;
pub mod resources;
pub mod party_screen;
pub mod slice_write;
pub mod importers;
