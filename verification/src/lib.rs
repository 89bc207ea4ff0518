//! Planar and spatial rigid-body linkage topology: persistent identities,
//! structural document validation, certified gauge components and the
//! persistent-to-runtime identity maps.

pub mod ids;
pub mod runtime_ids;
pub mod union_find;
pub mod connectivity;
pub mod components;
pub mod model;
pub mod idmap;
pub mod planar;
pub mod gauge;
pub mod text;
pub mod spatial;
pub mod spatial_document;
pub mod spatial_structure;
pub mod spatial_document_structure;
pub mod planar_capture;
pub mod spatial_builder;
pub mod spatial_growth;
pub mod spatial_hysteresis;
pub mod linkage;
pub mod slots;
pub mod planar_lowering;
pub mod planar_document_lowering;
pub mod spatial_lowering;
pub mod spatial_capture;
pub mod spatial_boundaries;
pub mod spatial_edits;
