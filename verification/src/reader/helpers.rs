//! Small presentation helpers for reader state.
use vstd::prelude::*;
use super::{ANTENNA_STATUS_CONNECTED, ANTENNA_STATUS_DISCONNECTED};

verus! {

/// The one-character mark shown for an antenna port.
pub open spec fn antenna_status_mark(status: u8) -> &'static str {
    if status == ANTENNA_STATUS_CONNECTED {
        "-"
    } else if status == ANTENNA_STATUS_DISCONNECTED {
        "x"
    } else {
        ""
    }
}

pub fn antenna_status_str(status: u8) -> (r: &'static str)
    ensures
        r == antenna_status_mark(status),
{
    if status == ANTENNA_STATUS_CONNECTED {
        return "-";
    }
    if status == ANTENNA_STATUS_DISCONNECTED {
        return "x";
    }
    return "";
}

} // verus!
