//! Discrete core of a small spacecraft simulator: mesh bookkeeping, Wavefront
//! OBJ reading, waypoint queues and keyboard intents, each with a proved
//! contract. Numeric flight dynamics and rendering live with the embedding
//! program.

pub mod components;
pub mod render;
pub mod stage;
