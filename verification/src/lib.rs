//! A software rendering and simulation core for a target-practice trainer.
//!
//! Everything here works on whole numbers: pixel coordinates, packed colours,
//! counters and clock readings. Callers that keep positions or depths in another
//! number format hand them over as integers with the same order and sign.
//!
//! A frame is drawn in this order: `depth::draw_scene` fills the triangles of the
//! room and of the targets, `gui::draw_crosshair` and `gui::draw_gui` lay the
//! overlay over them. `clipping` says how a triangle is cut along a boundary,
//! `movement` how a target's velocity and position are held inside their bounds,
//! and `session` keeps the gun, the score and the pool of targets.

pub mod clipping;
pub mod color;
pub mod config;
pub mod depth;
pub mod error;
pub mod frame;
pub mod gui;
pub mod input;
pub mod line;
pub mod menu;
pub mod mesh;
pub mod movement;
pub mod obj;
pub mod png_source;
pub mod raster;
pub mod scalar;
pub mod scenario;
pub mod session;
pub mod texture;
