//! The records the portal keeps: chip reads, participants, settings, events.
pub mod read;
pub mod participant;
pub mod bibchip;
pub mod setting;
pub mod sighting;
pub mod event;
pub mod event_year;
pub mod notification;
