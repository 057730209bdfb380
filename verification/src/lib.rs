//! A particle simulation that runs apart from the thread that draws it.
//!
//! Circular particles move in a box with reflecting walls. A worker integrates
//! their motion step by step and publishes time-stamped snapshots to a queue; a
//! controller takes snapshots from the queue, blends the two around the time it
//! is asked for, and sends the worker commands that add or remove particles or
//! change the shape of the box.
//!
//! All quantities are fixed-point numbers held in `i64`, in millionths: a length
//! of 1 000 000 is half the width of the box, a time of 1 000 000 is one second.
//! Arithmetic on them is exact up to rounding toward zero, and no operation
//! overflows.
//!
//! The worker and the controller are plain state machines. Threads, channels and
//! the source of randomness belong to the program that drives them.

pub mod cli;
pub mod controller;
pub mod fixed;
pub mod input;
pub mod integrator;
pub mod interp;
pub mod laws;
pub mod queue;
pub mod render;
pub mod simulation;
pub mod snapshot;
pub mod spawn;
pub mod uniform;
pub mod worker;
