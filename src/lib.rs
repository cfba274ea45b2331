//! Gameplay simulation for a two-player arcade space battle: shields, gravity,
//! contact damage, asteroid splitting, timed debris and a toroidal arena.
//!
//! All quantities are fixed-point integers: energy in millionths of a full
//! shield, time in milliseconds, lengths in thousandths of a pixel.

pub mod components;
pub mod topology;
pub mod shield;
pub mod gravity;
pub mod world;
pub mod controls;
pub mod lifecycle;
