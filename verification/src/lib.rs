//! Simulation core of a Breakout-style arcade game.
//!
//! A paddle, a ball and a grid of destructible bricks are advanced one fixed
//! time step at a time.  All lengths are measured in micropixels
//! (1 pixel = 1_000_000 units), all velocities in micropixels per millisecond
//! and all time steps in milliseconds, so that every state transition is
//! exact integer arithmetic.

pub mod ball;
pub mod brick;
pub mod config;
pub mod game;
pub mod geom;
pub mod input;
pub mod laws;
pub mod paddle;
