//! The generic LLRP requests the portal builds without vendor parameters.
//! Each is a bare ten-byte header of message type 35.
use vstd::prelude::*;
use crate::llrp::bit_masks::msg_prefix;
use crate::reader::zebra::requests::len_10;

verus! {

pub fn get_rospecs(id: &u32) -> (r: [u8; 10])
    ensures
        r@ == msg_prefix(35, 10, *id),
{
    len_10(35, id)
}

pub fn close_connection(id: &u32) -> (r: [u8; 10])
    ensures
        r@ == msg_prefix(35, 10, *id),
{
    len_10(35, id)
}

pub fn keepalive_ack(id: &u32) -> (r: [u8; 10])
    ensures
        r@ == msg_prefix(35, 10, *id),
{
    len_10(35, id)
}

} // verus!
