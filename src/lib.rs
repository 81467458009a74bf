//! Transcoder from versioned binary mesh containers (3.xx and 4.xx) to the
//! canonical, unskinned, LOD-flattened "version 2.00" layout.
pub mod bytes;
pub mod mesh;
pub mod v3;
pub mod v4;
pub mod rbxmesh_parser;
pub mod service;
