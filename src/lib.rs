//! A grid ray caster in exact integer arithmetic: positions and directions
//! are fixed-point values, ray parameters are kept as fractions.
pub mod fixed;
pub mod frame;
pub mod grid;
pub mod player;
pub mod ray;
pub mod shade;
