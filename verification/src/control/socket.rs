//! The control protocol: clients send JSON requests over a socket.
use vstd::prelude::*;
use vstd::utf8::encode_utf8;
use crate::control::{
    SETTING_CHIP_TYPE, SETTING_PORTAL_NAME, SETTING_READ_WINDOW, SETTING_SIGHTING_PERIOD,
    SETTING_PLAY_SOUND, SETTING_VOLUME, SETTING_VOICE, SETTING_UPLOAD_INTERVAL, SETTING_NTFY_URL,
    SETTING_NTFY_USER, SETTING_NTFY_PASS, SETTING_NTFY_TOPIC,
};
use crate::database::memstore::{MemStore, setting_pairs};
use crate::objects::setting::Setting;
use crate::network::api::{Api, ApiView, API_TYPE_CHRONOKEEP_REMOTE, API_TYPE_CHRONOKEEP_REMOTE_SELF, API_URI_CHRONOKEEP_REMOTE};
use crate::control::socket::errors::Errors;
use crate::text::str_equal;
use vstd::string::StringExecFns;

pub mod errors;
pub mod notifications;
pub mod requests;
pub mod responses;
pub mod session;
pub mod answer;
pub mod readers;
pub mod services;

verus! {

pub const MAX_CONNECTED: usize = 4;
pub const CONNECTION_TYPE: &'static str = "chrono_portal";
pub const CONNECTION_VERS: usize = 1;
pub const CONNECTION_CHANGE_PAUSE: u64 = 500;
pub const READ_TIMEOUT_SECONDS: u64 = 5;
pub const KEEPALIVE_INTERVAL_SECONDS: u64 = 30;
pub const UPDATE_SCRIPT_ENV: &'static str = "PORTAL_UPDATE_SCRIPT";
pub const JSON_START_CHAR: char = '{';
pub const JSON_END_CHAR: char = '}';

/// The change in brace depth over `s`: one up for each `{`, one down for each `}`.
pub open spec fn brace_depth(s: Seq<u8>) -> int
    decreases s.len(),
{
    if s.len() == 0 {
        0
    } else {
        brace_depth(s.drop_last()) + (if s.last() == 0x7bu8 {
            1int
        } else if s.last() == 0x7du8 {
            -1int
        } else {
            0int
        })
    }
}

/// `p` is the first opening brace of `s`.
pub open spec fn first_open_brace(s: Seq<u8>, p: int) -> bool {
    &&& 0 <= p < s.len()
    &&& s[p] == 0x7bu8
    &&& forall|j: int| 0 <= j < p ==> s[j] != 0x7bu8
}

/// `c` is the brace that closes the group opened at `p`: the depth from `p`
/// through `c` first returns to zero there.
pub open spec fn closes_group(s: Seq<u8>, p: int, c: int) -> bool {
    &&& p < c < s.len()
    &&& brace_depth(s.subrange(p, c + 1)) == 0
    &&& forall|j: int| p <= j < c ==> brace_depth(#[trigger] s.subrange(p, j + 1)) > 0
}

/// Where the first complete JSON object of `s` ends: the index of its closing
/// brace, or of the newline right after it. Where the text holds no complete
/// object, or its first brace is one of its last two bytes, the last index.
pub open spec fn json_end(s: Seq<u8>, r: int) -> bool {
    &&& (forall|j: int| 0 <= j < s.len() ==> s[j] != 0x7bu8) ==> r == s.len() - 1
    &&& forall|p: int| #[trigger] first_open_brace(s, p) && p + 1 >= s.len() - 1 ==> r == s.len() - 1
    &&& forall|p: int, c: int|
        #![trigger first_open_brace(s, p), closes_group(s, p, c)]
        first_open_brace(s, p) && p + 1 < s.len() - 1 && closes_group(s, p, c) ==> r == (if c + 1
            < s.len() && s[c + 1] == 0x0au8 {
            c + 1
        } else {
            c
        })
    &&& forall|p: int|
        #[trigger] first_open_brace(s, p) && p + 1 < s.len() - 1 && (forall|c: int|
            !closes_group(s, p, c)) ==> r == s.len() - 1
}

proof fn lemma_depth_step(s: Seq<u8>, p: int, j: int)
    requires
        0 <= p <= j < s.len(),
    ensures
        brace_depth(s.subrange(p, j + 1)) == brace_depth(s.subrange(p, j)) + (if s[j] == 0x7bu8 {
            1int
        } else if s[j] == 0x7du8 {
            -1int
        } else {
            0int
        }),
{
    assert(s.subrange(p, j + 1).drop_last() =~= s.subrange(p, j));
}

/// Finds where the first JSON object in the buffer ends, so that it can be cut
/// off and parsed on its own.
pub fn find_json_end(buffer: &String) -> (r: usize)
    requires
        buffer@.len() > 0,
    ensures
        json_end(encode_utf8(buffer@), r as int),
        r < encode_utf8(buffer@).len(),
{
    let chars = buffer.as_str().as_bytes();
    let ghost s = chars@;
    assert(s == encode_utf8(buffer@));
    assert(s.len() > 0);
    let n = chars.len();
    let mut start_count: usize = 0;
    let mut ix: usize = 0;
    while ix < n
        invariant_except_break
            0 <= ix <= n,
            n == s.len(),
            chars@ == s,
            start_count == 0,
            forall|j: int| 0 <= j < ix ==> s[j] != 0x7bu8,
        invariant
            n == s.len(),
            chars@ == s,
        ensures
            (start_count == 0 && ix == n && forall|j: int| 0 <= j < n ==> s[j] != 0x7bu8) || (
            start_count == 1 && 1 <= ix <= n && first_open_brace(s, ix - 1)),
        decreases n - ix,
    {
        if chars[ix] == 0x7bu8 {
            start_count = 1;
            ix = ix + 1;
            break;
        }
        ix = ix + 1;
    }
    if ix >= n - 1 {
        return n - 1;
    }
    let ghost p: int = ix - 1;
    proof {
        lemma_depth_step(s, p, p);
        assert(s.subrange(p, p) =~= Seq::<u8>::empty());
        assert forall|q: int| first_open_brace(s, q) implies q == p by {
            if q < p {
                assert(s[q] != 0x7bu8);
            } else if q > p {
                assert(s[p] != 0x7bu8);
            }
        }
    }
    while ix < n
        invariant
            1 <= ix <= n,
            n == s.len(),
            chars@ == s,
            first_open_brace(s, p),
            forall|q: int| first_open_brace(s, q) ==> q == p,
            s == encode_utf8(buffer@),
            p + 1 < n - 1,
            p < ix,
            start_count >= 1,
            start_count as int == brace_depth(s.subrange(p, ix as int)),
            start_count <= ix,
            forall|j: int| p <= j < ix ==> brace_depth(#[trigger] s.subrange(p, j + 1)) > 0,
        decreases n - ix,
    {
        proof {
            lemma_depth_step(s, p, ix as int);
        }
        if chars[ix] == 0x7bu8 {
            start_count = start_count + 1;
        } else if chars[ix] == 0x7du8 {
            start_count = start_count - 1;
            if start_count < 1 {
                proof {
                    assert(closes_group(s, p, ix as int));
                    assert forall|c: int| closes_group(s, p, c) implies c == ix by {
                        if c < ix {
                            assert(brace_depth(s.subrange(p, c + 1)) > 0);
                        } else if c > ix {
                            assert(brace_depth(s.subrange(p, ix + 1)) > 0);
                        }
                    }
                }
                let r = if ix + 1 < n && chars[ix + 1] == 0x0au8 {
                    ix + 1
                } else {
                    ix
                };
                proof {
                    let c0 = ix as int;
                    assert(s[p] == 0x7bu8);
                    assert forall|q: int, c: int|
                        first_open_brace(s, q) && q + 1 < s.len() - 1 && closes_group(
                            s,
                            q,
                            c,
                        ) implies r == (if c + 1 < s.len() && s[c + 1] == 0x0au8 {
                        c + 1
                    } else {
                        c
                    }) by {
                        assert(q == p);
                        assert(c == c0);
                    }
                    assert forall|q: int|
                        #[trigger] first_open_brace(s, q) && q + 1 < s.len() - 1 implies !(forall|
                        c: int|
                        !closes_group(s, q, c)) by {
                        assert(q == p);
                        assert(closes_group(s, q, c0));
                    }
                }
                return r;
            }
        }
        ix = ix + 1;
    }
    proof {
        assert forall|c: int| !closes_group(s, p, c) by {
            if closes_group(s, p, c) {
                assert(brace_depth(s.subrange(p, c + 1)) > 0);
            }
        }
    }
    n - 1
}


/// The settings a client is shown, in the order it is shown them.
pub open spec fn client_setting_names() -> Seq<Seq<char>> {
    seq![
        SETTING_CHIP_TYPE@,
        SETTING_PORTAL_NAME@,
        SETTING_READ_WINDOW@,
        SETTING_SIGHTING_PERIOD@,
        SETTING_PLAY_SOUND@,
        SETTING_VOLUME@,
        SETTING_VOICE@,
        SETTING_UPLOAD_INTERVAL@,
        SETTING_NTFY_URL@,
        SETTING_NTFY_USER@,
        SETTING_NTFY_PASS@,
        SETTING_NTFY_TOPIC@,
    ]
}

/// The (name, value) of each of `names` that `m` holds, in the order of `names`.
pub open spec fn present_settings(m: Map<Seq<char>, Seq<char>>, names: Seq<Seq<char>>) -> Seq<
    (Seq<char>, Seq<char>),
>
    decreases names.len(),
{
    if names.len() == 0 {
        Seq::empty()
    } else {
        let rest = present_settings(m, names.drop_last());
        let n = names.last();
        if m.contains_key(n) {
            rest.push((n, m[n]))
        } else {
            rest
        }
    }
}

/// The stored settings a client is shown; those not stored are left out.
pub fn get_settings(store: &MemStore) -> (r: Vec<Setting>)
    requires
        store.wf(),
    ensures
        setting_pairs(r@) == present_settings(store@.settings, client_setting_names()),
{
    let names: [&str; 12] = [
        SETTING_CHIP_TYPE,
        SETTING_PORTAL_NAME,
        SETTING_READ_WINDOW,
        SETTING_SIGHTING_PERIOD,
        SETTING_PLAY_SOUND,
        SETTING_VOLUME,
        SETTING_VOICE,
        SETTING_UPLOAD_INTERVAL,
        SETTING_NTFY_URL,
        SETTING_NTFY_USER,
        SETTING_NTFY_PASS,
        SETTING_NTFY_TOPIC,
    ];
    let ghost all = client_setting_names();
    assert(all.len() == 12);
    assert forall|j: int| 0 <= j < 12 implies (#[trigger] names@[j])@ == all[j] by {}
    let mut settings: Vec<Setting> = Vec::new();
    let mut i: usize = 0;
    while i < 12
        invariant
            i <= 12,
            store.wf(),
            all == client_setting_names(),
            all.len() == 12,
            forall|j: int| 0 <= j < 12 ==> (#[trigger] names@[j])@ == all[j],
            setting_pairs(settings@) == present_settings(store@.settings, all.subrange(0, i as int)),
        decreases 12 - i,
    {
        let ghost before = settings@;
        proof {
            assert(all.subrange(0, i + 1).drop_last() =~= all.subrange(0, i as int));
        }
        match store.get_setting(names[i]) {
            Ok(s) => {
                settings.push(s);
                assert(setting_pairs(settings@) =~= setting_pairs(before).push(s@));
            },
            Err(_) => {},
        }
        i = i + 1;
    }
    assert(all.subrange(0, 12) =~= all);
    settings
}


/// How many bytes of the buffer the first request takes: through the end
/// `find_json_end` finds.
pub fn request_cut(buffer: &String) -> (r: usize)
    requires
        buffer@.len() > 0,
    ensures
        json_end(encode_utf8(buffer@), r - 1),
        0 < r <= encode_utf8(buffer@).len(),
{
    let e = find_json_end(buffer);
    let n = buffer.as_str().as_bytes().len();
    assert(e < n);
    e + 1
}

/// The text ends in a slash.
pub open spec fn ends_in_slash(s: Seq<char>) -> bool {
    encode_utf8(s).len() > 0 && encode_utf8(s).last() == 0x2fu8
}

/// The address a remote service is saved with: the service's own address for
/// the hosted service, the given one for a self-hosted one; a slash is added
/// where it does not end in one.
pub open spec fn remote_uri(kind: Seq<char>, uri: Seq<char>) -> Seq<char> {
    let u = if kind == API_TYPE_CHRONOKEEP_REMOTE@ { API_URI_CHRONOKEEP_REMOTE@ } else { uri };
    if ends_in_slash(u) { u } else { u + "/"@ }
}

/// A remote service other than the one with id `id` is already saved.
pub open spec fn other_remote_exists(existing: Seq<ApiView>, id: i64) -> bool {
    exists|i: int|
        0 <= i < existing.len() && (#[trigger] existing[i].kind == API_TYPE_CHRONOKEEP_REMOTE@
            || existing[i].kind == API_TYPE_CHRONOKEEP_REMOTE_SELF@) && existing[i].id != id
}

/// The views of a list of services.
pub open spec fn api_views(v: Seq<Api>) -> Seq<ApiView> {
    v.map_values(|a: Api| a@)
}

pub(crate) fn with_slash(u: String) -> (r: String)
    ensures
        r@ == (if ends_in_slash(u@) { u@ } else { u@ + "/"@ }),
{
    let b = u.as_str().as_bytes();
    let n = b.len();
    if n > 0 && b[n - 1] == 0x2fu8 {
        u
    } else {
        let mut u = u;
        u.append("/");
        u
    }
}

/// Decides what a request to save a service becomes: the service to save,
/// or the error the client is answered with. Only the remote read service
/// kinds are accepted, and only one remote service may be saved.
pub fn plan_api_save(id: i64, name: String, kind: String, uri: String, token: String, existing: &Vec<Api>) -> (r: Result<Api, Errors>)
    ensures
        !(kind@ == API_TYPE_CHRONOKEEP_REMOTE@ || kind@ == API_TYPE_CHRONOKEEP_REMOTE_SELF@) ==> (r matches Err(
            Errors::InvalidApiType { message },
        ) && message@ == "'"@ + kind@ + "' is not a valid api type"@),
        (kind@ == API_TYPE_CHRONOKEEP_REMOTE@ || kind@ == API_TYPE_CHRONOKEEP_REMOTE_SELF@) && other_remote_exists(
            api_views(existing@),
            id,
        ) ==> r matches Err(Errors::TooManyRemoteApi),
        (kind@ == API_TYPE_CHRONOKEEP_REMOTE@ || kind@ == API_TYPE_CHRONOKEEP_REMOTE_SELF@) && !other_remote_exists(
            api_views(existing@),
            id,
        ) ==> (r matches Ok(a) && a@ == ApiView {
            id,
            nickname: name@,
            kind: kind@,
            token: token@,
            uri: remote_uri(kind@, uri@),
        }),
{
    let hosted = str_equal(kind.as_str(), API_TYPE_CHRONOKEEP_REMOTE);
    let self_hosted = str_equal(kind.as_str(), API_TYPE_CHRONOKEEP_REMOTE_SELF);
    if !hosted && !self_hosted {
        let mut message = String::from_str("'");
        message.append(kind.as_str());
        message.append("' is not a valid api type");
        return Err(Errors::InvalidApiType { message });
    }
    let t_uri = if hosted { with_slash(String::from_str(API_URI_CHRONOKEEP_REMOTE)) } else { with_slash(uri) };
    let mut i: usize = 0;
    while i < existing.len()
        invariant
            i <= existing@.len(),
            kind@ == API_TYPE_CHRONOKEEP_REMOTE@ || kind@ == API_TYPE_CHRONOKEEP_REMOTE_SELF@,
            forall|j: int|
                0 <= j < i ==> !((#[trigger] api_views(existing@)[j].kind == API_TYPE_CHRONOKEEP_REMOTE@
                    || api_views(existing@)[j].kind == API_TYPE_CHRONOKEEP_REMOTE_SELF@)
                    && api_views(existing@)[j].id != id),
        decreases existing.len() - i,
    {
        let a = &existing[i];
        let remote = str_equal(a.kind(), API_TYPE_CHRONOKEEP_REMOTE) || str_equal(a.kind(), API_TYPE_CHRONOKEEP_REMOTE_SELF);
        if remote && a.id() != id {
            assert(api_views(existing@)[i as int] == existing@[i as int]@);
            return Err(Errors::TooManyRemoteApi);
        }
        i = i + 1;
    }
    assert(!other_remote_exists(api_views(existing@), id)) by {
        if other_remote_exists(api_views(existing@), id) {
            let j = choose|j: int|
                0 <= j < api_views(existing@).len() && (#[trigger] api_views(existing@)[j].kind
                    == API_TYPE_CHRONOKEEP_REMOTE@ || api_views(existing@)[j].kind
                    == API_TYPE_CHRONOKEEP_REMOTE_SELF@) && api_views(existing@)[j].id != id;
            assert(j < i);
        }
    }
    Ok(Api::new(id, name, kind, token, t_uri))
}

/// How a setting a client sends is handled.
#[derive(Debug, Clone, Copy, PartialEq, Eq, Structural)]
pub enum SettingKind {
    /// The voice: saved unless it asks for a custom voice that is not there.
    Voice,
    /// A setting that is saved as it comes.
    Stored,
    /// Not a setting a client may change.
    Invalid,
}

/// The settings a client may change besides the voice.
pub open spec fn stored_setting_name(n: Seq<char>) -> bool {
    n == SETTING_CHIP_TYPE@ || n == SETTING_PORTAL_NAME@ || n == SETTING_READ_WINDOW@
        || n == SETTING_SIGHTING_PERIOD@ || n == SETTING_PLAY_SOUND@ || n == SETTING_UPLOAD_INTERVAL@
        || n == SETTING_VOLUME@ || n == SETTING_NTFY_URL@ || n == SETTING_NTFY_USER@
        || n == SETTING_NTFY_PASS@ || n == SETTING_NTFY_TOPIC@
}

pub fn classify_setting(name: &str) -> (r: SettingKind)
    ensures
        r == (if name@ == SETTING_VOICE@ {
            SettingKind::Voice
        } else if stored_setting_name(name@) {
            SettingKind::Stored
        } else {
            SettingKind::Invalid
        }),
{
    if str_equal(name, SETTING_VOICE) {
        SettingKind::Voice
    } else if str_equal(name, SETTING_CHIP_TYPE) || str_equal(name, SETTING_PORTAL_NAME) || str_equal(name, SETTING_READ_WINDOW)
        || str_equal(name, SETTING_SIGHTING_PERIOD) || str_equal(name, SETTING_PLAY_SOUND)
        || str_equal(name, SETTING_UPLOAD_INTERVAL) || str_equal(name, SETTING_VOLUME)
        || str_equal(name, SETTING_NTFY_URL) || str_equal(name, SETTING_NTFY_USER)
        || str_equal(name, SETTING_NTFY_PASS) || str_equal(name, SETTING_NTFY_TOPIC) {
        SettingKind::Stored
    } else {
        SettingKind::Invalid
    }
}

/// The error a client gets for a setting it may not change.
pub fn invalid_setting_error(name: &str) -> (r: Errors)
    ensures
        r matches Errors::DatabaseError { message } && message@ == "'"@ + name@ + "' is not a valid setting"@,
{
    let mut message = String::from_str("'");
    message.append(name);
    message.append("' is not a valid setting");
    Errors::DatabaseError { message }
}

} // verus!
