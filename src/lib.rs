//! A small arcade shooter's rules: a jeep moves and fires rockets upward,
//! planes enter on a timer and drop bombs, and rockets that strike planes
//! remove them. Positions are exact integers, so each per-frame step has an
//! exact contract.
pub mod geometry;
pub mod timer;
pub mod entities;
pub mod systems;
pub mod collision;
pub mod world;
