//! Integer-only core of an immediate-mode overlay: a radial ("pie") menu
//! widget, the per-frame compiler that turns abstract draw commands into
//! vertex, index and batch arrays, the registry of texture handles, and the
//! renderer that turns batches into draw calls.
//!
//! All coordinates are integers in caller-chosen units and all angles are
//! whole minutes of arc, so that each contract can say which integers a
//! function hands back. What only floating point has is the host's to
//! compute and is taken in as whole numbers: the angle of the pointer, and a
//! table of the directions of the turn, by which every point on a circle is
//! placed. The contracts are proved, but for the one call into the picture
//! decoder in `icon`, whose contract is taken on trust.

pub mod canvas;
pub mod demo;
pub mod frame;
pub mod geometry;
pub mod icon;
pub mod input;
pub mod mesh;
pub mod pack;
pub mod piemenu;
pub mod registry;
pub mod render;
pub mod style;
pub mod tessellate;
