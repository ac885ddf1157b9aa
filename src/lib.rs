//! Conversion of city-model feature documents into spatial footprints and
//! flat attribute records: the parsing state machine, the code-list cache,
//! and the polygon preparation that feeds the spatial-indexing primitive.

pub mod text_map;
pub mod code_list;
pub mod scope;
pub mod geometry;
pub mod feature;
pub mod lod;
pub mod output;
pub mod building;
