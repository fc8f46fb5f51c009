//! Discrete core of an orbit viewer for procedurally built solids.
//!
//! Everything here is integer and text logic, proved against its contracts:
//!
//! - `primitive`: the closed set of solids and the lookup from a name;
//! - `topology`: vertex counts and triangle index buffers of the solids;
//! - `winding`: which way the triangles of those buffers face, in exact
//!   arithmetic on lattice points;
//! - `normals`: which triangles take part in deriving per-vertex normals;
//! - `bounds`: axis-aligned bounds of a position buffer, on ordered keys;
//! - `session`: viewport size and current solid of a viewing session.
//!
//! Coordinates, angles and matrices are numeric work that the embedding
//! program does on top of these.

pub mod bounds;
pub mod normals;
pub mod primitive;
pub mod session;
pub mod topology;
pub mod winding;
