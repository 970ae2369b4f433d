//! Chronokeep portal: the logic of an RFID timing portal that talks LLRP to
//! Zebra readers, keeps chip reads, and answers a control protocol.
use vstd::prelude::*;

pub mod llrp;
pub mod reader;
mod clock;
pub mod text;
pub mod objects;
pub mod control;
pub mod network;
pub mod remote;
pub mod processor;
pub mod database;
pub mod types;
pub mod defaults;
pub mod notifier;
pub mod notifications;
pub mod results;
pub mod screen;
pub mod battery;

verus! {
}
