//! A source-routed forwarding node: packet validation, the drop lottery,
//! flood discovery, negative acknowledgements and the crash drain.
//!
//! The node is a state machine. [`model`] says, for every state and input,
//! which state follows and what the node asks for; [`flypath`] is the node
//! that computes it; [`transport`] carries out what the node asks for on
//! channels of `crossbeam_channel` and tells the node how each send went;
//! [`laws`] holds what is proved of all this. What is left to the program
//! around the node is to wait for the next input.
#![allow(non_snake_case)]

pub mod controller;
pub mod flood;
pub mod flypath;
pub mod laws;
pub mod lottery;
pub mod messages;
pub mod model;
pub mod modes;
pub mod network;
pub mod transport;

pub use controller::{Action, DroneCommand, DroneEvent, Input, Reaction};
pub use flypath::FlyPath;
pub use lottery::DropRate;
pub use messages::{extract_flypath_message, Messages};
pub use model::LifecycleState;
pub use modes::{FlyPathModes, FlyPathThemes};
pub use transport::{Outcome, Performance, Turn};
