//! Streaming decoder for I2C bus transactions.
//!
//! The engine consumes one sample of the two bus lines (clock and data) at a
//! time, recognises START and STOP conditions, accumulates data bits on clock
//! rising edges, and emits each completed transaction as an ordered sequence
//! of bytes with their acknowledgement status.

pub mod edge;
pub mod engine;
pub mod laws;
pub mod message;
pub mod render;

pub use edge::LineEdge;
pub use engine::{DecodeState, I2cEngine};
pub use message::{I2cByte, I2cMessage, I2cStatus};
