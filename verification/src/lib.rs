//! A stage-lighting engine: fixtures with typed channels, their rendering into
//! a 512-channel frame, time-driven effects, control commands and the framing
//! of the two output protocols.

pub mod artnet;
pub mod command;
pub mod dmx;
pub mod effect;
pub mod fixture;
pub mod patching;
pub mod scheduler;
pub mod sweep;
pub mod text;
pub mod timing;
pub mod universe;
