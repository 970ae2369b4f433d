//! Decoding of LLRP message and parameter headers.
use vstd::prelude::*;

verus! {

// First 16 bits of a message: 3 reserved bits, 3 version bits, 10 message type bits.
pub const RESERVED: u16 = 0xE000;
pub const VERSION: u16 = 0x1C00;
pub const MSG_TYPE: u16 = 0x03FF;

/// Big-endian value of two bytes.
pub open spec fn be16(b0: u8, b1: u8) -> int {
    b0 as int * 256 + b1 as int
}

/// Big-endian value of the four bytes of `s` starting at `i`.
pub open spec fn be32(s: Seq<u8>, i: int) -> int {
    ((s[i] as int * 256 + s[i + 1] as int) * 256 + s[i + 2] as int) * 256 + s[i + 3] as int
}

pub struct MsgTypeInfo {
    pub version: u16,
    pub kind: u16,
    pub length: u32,
    pub id: u32,
}

/// The 16-bit header word of a message starting at the front of `s`.
pub open spec fn msg_header(s: Seq<u8>) -> int {
    be16(s[0], s[1])
}

/// A header is accepted when its reserved bits are clear and its version is 1 or 2.
pub open spec fn msg_header_valid(h: int) -> bool {
    &&& h < 0x2000
    &&& (h / 1024 == 1 || h / 1024 == 2)
}

pub fn get_msg_type(buf: &[u8]) -> (r: Result<MsgTypeInfo, &'static str>)
    requires
        buf@.len() >= 10,
    ensures
        msg_header(buf@) >= 0x2000 ==> r == Err::<MsgTypeInfo, &'static str>("invalid reserved field"),
        msg_header(buf@) < 0x2000 && !msg_header_valid(msg_header(buf@))
            ==> r == Err::<MsgTypeInfo, &'static str>("invalid version specified"),
        msg_header_valid(msg_header(buf@)) ==> (r matches Ok(info) && {
            &&& info.version as int == msg_header(buf@) / 1024
            &&& info.kind as int == msg_header(buf@) % 1024
            &&& info.length as int == be32(buf@, 2)
            &&& info.id as int == be32(buf@, 6)
        }),
{
    let b0 = buf[0];
    let b1 = buf[1];
    assert(((b0 as u16) << 8) == b0 as u16 * 256) by (bit_vector);
    let bits: u16 = ((b0 as u16) << 8) + (b1 as u16);
    let mut length: u32 = 0;
    let mut i: usize = 0;
    while i < 4
        invariant
            0 <= i <= 4,
            buf@.len() >= 10,
            i == 0 ==> length == 0,
            i == 1 ==> length as int == buf@[2] as int,
            i == 2 ==> length as int == buf@[2] as int * 256 + buf@[3] as int,
            i == 3 ==> length as int == (buf@[2] as int * 256 + buf@[3] as int) * 256 + buf@[4] as int,
            i == 4 ==> length as int == be32(buf@, 2),
        decreases 4 - i,
    {
        let b = buf[2 + i];
        assert(length < 0x1000000);
        assert((length << 8) == length * 256) by (bit_vector) requires length < 0x1000000;
        length = (length << 8) + (b as u32);
        i += 1;
    }
    let mut id: u32 = 0;
    let mut j: usize = 0;
    while j < 4
        invariant
            0 <= j <= 4,
            buf@.len() >= 10,
            j == 0 ==> id == 0,
            j == 1 ==> id as int == buf@[6] as int,
            j == 2 ==> id as int == buf@[6] as int * 256 + buf@[7] as int,
            j == 3 ==> id as int == (buf@[6] as int * 256 + buf@[7] as int) * 256 + buf@[8] as int,
            j == 4 ==> id as int == be32(buf@, 6),
        decreases 4 - j,
    {
        let b = buf[6 + j];
        assert(id < 0x1000000);
        assert((id << 8) == id * 256) by (bit_vector) requires id < 0x1000000;
        id = (id << 8) + (b as u32);
        j += 1;
    }
    assert((bits & RESERVED) != 0 <==> bits >= 0x2000) by (bit_vector);
    if (bits & RESERVED) != 0 {
        return Err("invalid reserved field");
    }
    let vers = (bits & VERSION) >> 10;
    assert(bits < 0x2000 ==> ((bits & 0x1C00) >> 10) == bits / 1024) by (bit_vector);
    assert((bits & 0x03FF) == bits % 1024) by (bit_vector);
    if vers != 1 && vers != 2 {
        return Err("invalid version specified");
    }
    Ok(MsgTypeInfo { version: vers, kind: bits & MSG_TYPE, length, id })
}


// TV parameter masks
pub const TV_RESERVED: u16 = 0x8000;
pub const TV_TYPE: u16 = 0x7F00;

// TLV parameter masks
pub const PARAM_RESERVED: u16 = 0xFC00;
pub const PARAM_TYPE: u16 = 0x03FF;
pub const PARAM_LENGTH: u32 = 0xFFFF;

pub struct ParamTypeInfo {
    pub tv: bool,
    pub kind: u16,
    pub length: u16,
}

/// The upper 16 bits of a parameter's first word.
pub open spec fn param_head(bits: u32) -> u16 {
    (bits / 0x10000) as u16
}

/// What a parameter header decodes to: a TV parameter (top bit set) carries
/// only its type; a TLV parameter carries type and length, unless one of the
/// reserved bits is set.
pub open spec fn param_type_spec(bits: u32) -> Option<(bool, u16, u16)> {
    let head = param_head(bits);
    if head >= 0x8000 {
        Some((true, ((head / 256) % 128) as u16, 0u16))
    } else if (head & PARAM_RESERVED) != 0 {
        None
    } else {
        Some((false, (head % 1024) as u16, (bits % 0x10000) as u16))
    }
}

pub fn get_param_type(bits: &u32) -> (r: Result<ParamTypeInfo, &'static str>)
    ensures
        param_type_spec(*bits) is None ==> r == Err::<ParamTypeInfo, &'static str>("invalid reserved field"),
        param_type_spec(*bits) matches Some((tv, kind, length)) ==> (r matches Ok(info)
            && info.tv == tv && info.kind == kind && info.length == length),
{
    let b: u32 = *bits;
    let head: u16 = (b >> 16) as u16;
    assert(((b >> 16) as u16) == (b / 0x10000) as u16) by (bit_vector);
    assert((head & TV_RESERVED) != 0 <==> head >= 0x8000) by (bit_vector);
    if (head & TV_RESERVED) != 0 {
        assert(((head & 0x7F00) >> 8) == (head / 256) % 128) by (bit_vector);
        return Ok(ParamTypeInfo { tv: true, kind: (head & TV_TYPE) >> 8, length: 0 });
    }
    if (head & PARAM_RESERVED) != 0 {
        return Err("invalid reserved field");
    }
    assert((head & 0x03FF) == head % 1024) by (bit_vector);
    assert(((b & 0xFFFF) as u16) == (b % 0x10000) as u16) by (bit_vector);
    Ok(ParamTypeInfo { tv: false, kind: head & PARAM_TYPE, length: (b & PARAM_LENGTH) as u16 })
}

/// The four bytes of `x`, most significant first.
pub open spec fn u32_be_bytes(x: u32) -> Seq<u8> {
    seq![(x / 0x1000000) as u8, ((x / 0x10000) % 256) as u8, ((x / 256) % 256) as u8, (x % 256) as u8]
}

/// The two bytes of `x`, most significant first.
pub open spec fn u16_be_bytes(x: u16) -> Seq<u8> {
    seq![(x / 256) as u8, (x % 256) as u8]
}

/// The ten-byte header of a version 1 message of type `kind`, length `len` and id `id`.
pub open spec fn msg_prefix(kind: u16, len: u32, id: u32) -> Seq<u8> {
    u16_be_bytes((1024 + kind) as u16) + u32_be_bytes(len) + u32_be_bytes(id)
}

proof fn lemma_be32_of_bytes(x: u32)
    ensures
        be32(u32_be_bytes(x), 0) == x as int,
{
    let s = u32_be_bytes(x);
    let a = x / 0x1000000;
    let b = (x / 0x10000) % 256;
    let c = (x / 256) % 256;
    let d = x % 256;
    assert(((a * 256 + b) * 256 + c) * 256 + d == x) by (bit_vector)
        requires a == x / 0x1000000, b == (x / 0x10000) % 256, c == (x / 256) % 256, d == x % 256;
}

/// Decoding a well-formed version 1 header gives back the fields it was built from.
pub proof fn law_header_decodes(msg: Seq<u8>, kind: u16, len: u32, id: u32)
    requires
        kind < 1024,
        msg.len() >= 10,
        msg.subrange(0, 10) == msg_prefix(kind, len, id),
    ensures
        msg_header_valid(msg_header(msg)),
        msg_header(msg) / 1024 == 1,
        msg_header(msg) % 1024 == kind as int,
        be32(msg, 2) == len as int,
        be32(msg, 6) == id as int,
{
    let p = msg_prefix(kind, len, id);
    assert(msg[0] == p[0] && msg[1] == p[1] && msg[2] == p[2] && msg[3] == p[3] && msg[4] == p[4]);
    assert(msg[5] == p[5] && msg[6] == p[6] && msg[7] == p[7] && msg[8] == p[8] && msg[9] == p[9]);
    let h = (1024 + kind) as u16;
    assert((h / 256) as u8 as int * 256 + (h % 256) as u8 as int == h as int);
    lemma_be32_of_bytes(len);
    lemma_be32_of_bytes(id);
    assert(be32(msg, 2) == be32(u32_be_bytes(len), 0));
    assert(be32(msg, 6) == be32(u32_be_bytes(id), 0));
}

} // verus!
