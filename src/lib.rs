//! Driver for a chain of TPIC6C596 power-logic 8-bit shift registers.
//!
//! A [`Controller`] drives the four logical lines of the chain (clock, data,
//! latch and output control) through a [`Connector`]. The [`Emulator`]
//! reproduces the edge-triggered behaviour of the chips so that the driver
//! can run without hardware, and [`RemoteConnector`] drives an emulator in
//! another process one byte per pin change.
//!
//! The remaining modules hold the logic of the programs built around the
//! driver: benchmark definitions, suites and cases, their configuration,
//! the timings a run reports and the results collected over all runs, and
//! the light choreographies played on the chain.

pub mod pin;
pub mod connector;
pub mod controller;
pub mod emulator;
pub mod message;

pub mod ids;
pub mod text;
pub mod definition;
pub mod case;
pub mod suite;
pub mod benchmark;
pub mod implementation;
pub mod config;
pub mod output;
pub mod timing;
pub mod results;
pub mod choreography;

pub use pin::{Pin, Pins};
pub use connector::Connector;
pub use controller::{Controller, all_ones};
pub use emulator::{ChainState, Emulator, PinSet, Register};
pub use message::{ByteSink, Message, Relay, RemoteConnector, decode, encode};
