//! Low Level Reader Protocol: message headers, parameter headers, names.
pub mod bit_masks;
pub mod message_types;
pub mod parameter_types;
pub mod requests;
