//! Core of a tile-map editor: grid layout, point lookup, tile catalog,
//! atlas registry, brush selection and painting, all over integer
//! world coordinates.
pub mod catalog;
pub mod editor;
pub mod geometry;
pub mod grid;
pub mod input;
pub mod paint;
pub mod registry;
pub mod selection;
pub mod tiling;
