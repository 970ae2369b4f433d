//! Discovery: the id the portal announces itself under, and its answer to a
//! client that looks for it on the local network.
use vstd::prelude::*;
use vstd::string::{StringExecFns, StrSliceExecFns};
use vstd::utf8::{valid_utf8, decode_utf8};
use rand::Rng;

use crate::text::{numeral, decimal, push_char, str_from_utf8, str_equal};

verus! {

pub const ZERO_CONF_REQUEST: &'static str = "[DISCOVER_CHRONO_SERVER_REQUEST]";
pub const ZERO_CONF_MULTICAST_ADDR: &'static str = "224.0.44.88";
pub const ZERO_CONF_PORT: u16 = 4488;

/// The characters a server id is drawn from.
pub const SERVER_ID_CHARS: &'static str = "ABCDEFGHIJKLMNOPQRSTUVWXYZabcdefghijklmnopqrstuvwxyz0123456789";
/// How many characters a server id has.
pub const SERVER_ID_LENGTH: usize = 10;

/// The name given in an answer when the portal's name cannot be read.
pub const UNKNOWN_NAME: &'static str = "Unknown";

/// The server id made of the characters of `SERVER_ID_CHARS` at `picks`, in order.
pub open spec fn server_id_spec(picks: Seq<usize>) -> Seq<char> {
    Seq::new(picks.len(), |i: int| SERVER_ID_CHARS@[picks[i] as int])
}

/// The answer to a discovery request: the portal's name, its server id and
/// the port of its control socket, between brackets and split by bars.
pub open spec fn zero_conf_answer(name: Seq<char>, server_id: Seq<char>, port: u16) -> Seq<char> {
    "["@ + name + "|"@ + server_id + "|"@ + numeral(port as nat, 10) + "]"@
}

/// The name an answer carries: the portal's own where it could be read.
pub open spec fn answer_name(name: Option<Seq<char>>) -> Seq<char> {
    match name {
        Some(n) => n,
        None => UNKNOWN_NAME@,
    }
}

/// Whether `received` is the discovery request: valid UTF-8 spelling it exactly.
pub open spec fn is_discovery_request(received: Seq<u8>) -> bool {
    valid_utf8(received) && decode_utf8(received) == ZERO_CONF_REQUEST@
}

/// `rand::thread_rng().gen_range(0..n)`: an index below `n`, drawn at random.
/// Nothing more is claimed of which.
#[verifier::external_body]
fn random_index(n: usize) -> (r: usize)
    requires
        n > 0,
    ensures
        r < n,
{
    rand::thread_rng().gen_range(0..n)
}

/// The server id spelled by the characters of `SERVER_ID_CHARS` at `picks`.
pub fn server_id_from(picks: &[usize]) -> (r: String)
    requires
        forall|i: int| 0 <= i < picks@.len() ==> (#[trigger] picks@[i]) < SERVER_ID_CHARS@.len(),
    ensures
        r@ == server_id_spec(picks@),
{
    proof {
        reveal_strlit("ABCDEFGHIJKLMNOPQRSTUVWXYZabcdefghijklmnopqrstuvwxyz0123456789");
    }
    let mut s = String::new();
    let mut k: usize = 0;
    while k < picks.len()
        invariant
            k <= picks@.len(),
            SERVER_ID_CHARS@.len() == 62,
            forall|i: int| 0 <= i < picks@.len() ==> (#[trigger] picks@[i]) < SERVER_ID_CHARS@.len(),
            s@ == server_id_spec(picks@.subrange(0, k as int)),
        decreases picks@.len() - k,
    {
        let c = SERVER_ID_CHARS.get_char(picks[k]);
        push_char(&mut s, c);
        k = k + 1;
        assert(s@ =~= server_id_spec(picks@.subrange(0, k as int)));
    }
    assert(picks@.subrange(0, k as int) =~= picks@);
    s
}

/// A fresh server id: `SERVER_ID_LENGTH` characters of `SERVER_ID_CHARS`,
/// each drawn at random.
pub fn new_server_id() -> (r: String)
    ensures
        r@.len() == SERVER_ID_LENGTH,
        forall|i: int| 0 <= i < r@.len() ==> SERVER_ID_CHARS@.contains(#[trigger] r@[i]),
{
    proof {
        reveal_strlit("ABCDEFGHIJKLMNOPQRSTUVWXYZabcdefghijklmnopqrstuvwxyz0123456789");
    }
    let count: usize = SERVER_ID_CHARS.unicode_len();
    let mut picks: Vec<usize> = Vec::new();
    let mut k: usize = 0;
    while k < SERVER_ID_LENGTH
        invariant
            k <= SERVER_ID_LENGTH,
            picks@.len() == k,
            count == SERVER_ID_CHARS@.len(),
            count == 62,
            forall|i: int| 0 <= i < picks@.len() ==> (#[trigger] picks@[i]) < count,
        decreases SERVER_ID_LENGTH - k,
    {
        let pick = random_index(count);
        picks.push(pick);
        k = k + 1;
    }
    let r = server_id_from(picks.as_slice());
    assert forall|i: int| 0 <= i < r@.len() implies SERVER_ID_CHARS@.contains(#[trigger] r@[i]) by {
        assert(SERVER_ID_CHARS@[picks@[i] as int] == r@[i]);
    }
    r
}

/// The answer to what a client sent to the discovery port: `None` unless it
/// is the discovery request, else the portal's name (`name`, or "Unknown"
/// where it could not be read), its server id and its control port.
pub fn zero_conf_reply(received: &[u8], name: Option<&str>, server_id: &str, control_port: u16) -> (r: Option<String>)
    ensures
        r is Some <==> is_discovery_request(received@),
        r matches Some(s) ==> s@ == zero_conf_answer(
            answer_name(match name { Some(n) => Some(n@), None => None }),
            server_id@,
            control_port,
        ),
{
    let text = match str_from_utf8(received) {
        Some(t) => t,
        None => return None,
    };
    if !str_equal(text, ZERO_CONF_REQUEST) {
        return None;
    }
    let shown: &str = match name {
        Some(n) => n,
        None => UNKNOWN_NAME,
    };
    let mut s = String::new();
    push_char(&mut s, '[');
    s.append(shown);
    push_char(&mut s, '|');
    s.append(server_id);
    push_char(&mut s, '|');
    let port = decimal(control_port as u128);
    s.append(port.as_str());
    push_char(&mut s, ']');
    proof {
        reveal_strlit("[");
        reveal_strlit("|");
        reveal_strlit("]");
    }
    assert(s@ =~= zero_conf_answer(
        answer_name(match name { Some(n) => Some(n@), None => None }),
        server_id@,
        control_port,
    ));
    Some(s)
}

} // verus!
