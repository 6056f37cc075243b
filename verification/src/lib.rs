//! Real-time building blocks of a dynamic-range compressor.
//!
//! * [`ring_buffer`]: the circular buffer behind the sliding level windows,
//!   whose length can change at run time without a new allocation.
//! * [`telemetry`]: the bookkeeping of the monitoring stream that runs from
//!   the audio callback to its observer: when a sample is due, how it is
//!   offered to the queue, and how the observer keeps a bounded history.
//! * [`parameters`]: the set of controls, as a host numbers them, and their
//!   declared ranges.
//!
//! Levels and gains are floating-point values and are computed by the
//! caller; nothing here looks into the values it stores or passes on.

pub mod parameters;
pub mod ring_buffer;
pub mod telemetry;
