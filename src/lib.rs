//! Two-party entity synchroniser for a paddle game: the world model, the
//! text frames exchanged between peers, the join handshake and the rules
//! that fold a received frame into the local world.
//!
//! Coordinates are a type parameter: the library moves them around and never
//! does arithmetic on them, so callers pick the numeric type they draw with.
pub mod entity;
pub mod world;
pub mod reconcile;
pub mod codec;
pub mod session;
pub mod control;
