//! Game rules of a top-down survival shooter: waves, score, hit points,
//! enemy bookkeeping and the integer layout of the screen. Geometry and
//! rendering stay with the caller; everything that is counted, chosen or
//! kept is decided here.

pub mod edge;
pub mod horde;
pub mod layout;
pub mod rules;
pub mod selection;
pub mod session;
