//! Coordinator of a distributed raytracer: the wire framing, the request and
//! reply protocol spoken with each worker, the partition of a frame into
//! per-worker bands of rows, and the decisions of the session controller.
pub mod bands;
pub mod frame;
pub mod protocol;
pub mod render;
pub mod conversation;
pub mod roster;
pub mod session;
pub mod snapshot;
