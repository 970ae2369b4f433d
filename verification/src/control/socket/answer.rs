//! What the portal answers a client's request with, and what the request
//! changes in the store. Requests that need the readers, the clock, the
//! network or the operating system are handed back to the caller.
use vstd::prelude::*;
use vstd::string::StringExecFns;
use crate::control::{SETTING_AUTO_REMOTE, SETTING_PORTAL_NAME, SETTING_VOICE};
use crate::control::socket::{CONNECTION_TYPE, CONNECTION_VERS};
use crate::control::socket::readers::{
    add_live_reader, client_readers, find_live, first_with_id, ids_with_state, live_after_add, live_after_remove,
    live_ids, remove_live_reader, shows_readers,
};
use crate::control::socket::services::{
    apis_after_saves, as_saved, list_adds_remote, list_has_unknown_kind, save_all_apis,
};
use crate::database::memstore::rows::{reader_id_not, reader_views, readers_after_save};
use crate::reader::{fresh_reader, Reader, AUTO_CONNECT_FALSE, AUTO_CONNECT_TRUE, READER_KIND_ZEBRA, READER_KIND_IMPINJ, READER_KIND_RFID};
use crate::reader::auto_connect::{may_change_readers, State};
use crate::control::socket::{
    api_views, classify_setting, client_setting_names, get_settings, invalid_setting_error, other_remote_exists,
    plan_api_save, present_settings, remote_uri, stored_setting_name, SettingKind, MAX_CONNECTED,
};
use crate::control::socket::errors::Errors;
use crate::control::socket::requests::Request;
use crate::control::socket::responses::Responses;
use crate::control::socket::requests::AutoUploadQuery;
use crate::control::socket::session::{plan_upload_query, ReadRepeaters, UploadPlan};
use crate::remote::uploader::{find_remote, first_remote, has_remote, Status, Uploader, UploaderView};
use crate::control::socket::session::time_set_allowed;
use crate::database::db_error_text;
use crate::database::memstore::{
    inside_span, outside_span, same_rows, same_sightings, setting_pairs, store_reads, valid_status, MemStore,
    MemStoreView,
};
use crate::database::memstore::rows::{api_id_not, apis_after_save};
use crate::network::api::{Api, ApiView, API_TYPE_CHRONOKEEP_REMOTE, API_TYPE_CHRONOKEEP_REMOTE_SELF};
use crate::objects::read::{valid_read, Read, ReadView};
use crate::objects::setting::Setting;
use crate::processor::read_views;

verus! {

/// What the connection does after answering.
#[derive(Debug)]
pub enum ConnectionAction {
    /// Keep serving the client.
    Continue,
    /// Keep serving the client, after reading the changed settings again.
    Reload,
    /// Start the uploader's loop, then read the changed settings again.
    StartUploader,
    /// Close this connection.
    Close,
    /// Stop the portal.
    Quit,
    /// Stop the portal and power the machine off.
    Shutdown,
    /// Stop the portal and have the system start it again.
    Restart,
    /// Connect to the running readers with these ids.
    ConnectReaders { ids: Vec<i64> },
    /// Disconnect the running readers with these ids, then send every client the reader list.
    DisconnectReaders { ids: Vec<i64> },
    /// Send these reads to this remote service, all of them, whether sent before or not.
    Upload { api: Api, reads: Vec<Read> },
    /// The request needs work outside the store: the caller carries it out.
    Outside(Request),
}

/// What the portal tells a client about itself besides what it stores: how
/// far the start-up connecting to readers is, whether it can update itself,
/// and its version.
#[derive(Clone, Copy)]
pub struct PortalInfo {
    pub auto_connect: State,
    pub updatable: bool,
    pub version: &'static str,
}

/// A client may add or remove readers: the start-up connecting is done or
/// was never started.
pub open spec fn readers_changeable(s: State) -> bool {
    s == State::Finished || s == State::Unknown
}

/// The reader a request to connect or disconnect one names.
pub open spec fn reader_target(req: Request) -> i64 {
    match req {
        Request::ReaderConnect { id } => id,
        Request::ReaderStart { id } => id,
        Request::ReaderDisconnect { id } => id,
        Request::ReaderStop { id } => id,
        _ => 0,
    }
}

/// The answer to one request.
pub struct Answer {
    /// Sent to the client that asked.
    pub responses: Vec<Responses>,
    /// Sent to every connected client.
    pub broadcast: Vec<Responses>,
    pub action: ConnectionAction,
}

/// The store takes this one read: its status is one it accepts and its id fits.
pub open spec fn read_fits(st: MemStoreView, r: ReadView) -> bool {
    valid_status(r.status) && st.next_id < u64::MAX
}

/// A service of this kind can be saved.
pub open spec fn remote_kind(kind: Seq<char>) -> bool {
    kind == API_TYPE_CHRONOKEEP_REMOTE@ || kind == API_TYPE_CHRONOKEEP_REMOTE_SELF@
}

/// A setting a client may change.
pub open spec fn client_may_set(n: Seq<char>) -> bool {
    n == SETTING_VOICE@ || stored_setting_name(n)
}

/// The stored settings after a client sends `ss`: those it may change are
/// written, in order; the others are left out.
pub open spec fn settings_after(m: Map<Seq<char>, Seq<char>>, ss: Seq<(Seq<char>, Seq<char>)>) -> Map<Seq<char>, Seq<char>>
    decreases ss.len(),
{
    if ss.len() == 0 {
        m
    } else {
        let before = settings_after(m, ss.drop_last());
        if client_may_set(ss.last().0) { before.insert(ss.last().0, ss.last().1) } else { before }
    }
}

/// What the client is told about each setting of `ss` it may not change, in order.
pub open spec fn refused_settings(ss: Seq<(Seq<char>, Seq<char>)>) -> Seq<Seq<char>>
    decreases ss.len(),
{
    if ss.len() == 0 {
        Seq::empty()
    } else {
        let before = refused_settings(ss.drop_last());
        if client_may_set(ss.last().0) {
            before
        } else {
            before.push("'"@ + ss.last().0 + "' is not a valid setting"@)
        }
    }
}

/// Every setting a client is shown is one it may set: `classify_setting`
/// does not call it invalid, and sending it with any value writes that value
/// with no error coming back.
pub proof fn law_shown_settings_may_be_set(m: Map<Seq<char>, Seq<char>>, i: int, value: Seq<char>)
    requires
        0 <= i < client_setting_names().len(),
    ensures
        client_setting_names()[i] == SETTING_VOICE@ || stored_setting_name(client_setting_names()[i]),
        settings_after(m, seq![(client_setting_names()[i], value)]) == m.insert(client_setting_names()[i], value),
        refused_settings(seq![(client_setting_names()[i], value)]).len() == 0,
{
    let n = client_setting_names()[i];
    assert(client_may_set(n));
    let one = seq![(n, value)];
    assert(one.drop_last() =~= Seq::<(Seq<char>, Seq<char>)>::empty());
    reveal_with_fuel(settings_after, 2);
    reveal_with_fuel(refused_settings, 2);
}

/// Writes the settings a client sent; the answer holds an error for each it
/// may not change.
fn apply_settings(store: &mut MemStore, settings: &Vec<Setting>) -> (r: Vec<Responses>)
    requires
        old(store).wf(),
    ensures
        final(store).wf(),
        final(store)@.settings == settings_after(old(store)@.settings, setting_pairs(settings@)),
        final(store)@.reads == old(store)@.reads,
        final(store)@.next_id == old(store)@.next_id,
        final(store)@.apis == old(store)@.apis,
        same_rows(final(store)@, old(store)@),
        same_sightings(final(store)@, old(store)@),
        r@.len() == refused_settings(setting_pairs(settings@)).len(),
        forall|k: int| 0 <= k < r@.len() ==> (#[trigger] r@[k] matches Responses::Error { error: Errors::DatabaseError { message } }
            && message@ == refused_settings(setting_pairs(settings@))[k]),
{
    let ghost sp = setting_pairs(settings@);
    let mut out: Vec<Responses> = Vec::new();
    let mut i: usize = 0;
    assert(sp.take(0) =~= Seq::<(Seq<char>, Seq<char>)>::empty());
    while i < settings.len()
        invariant
            i <= settings@.len(),
            sp == setting_pairs(settings@),
            store.wf(),
            store@.settings == settings_after(old(store)@.settings, sp.take(i as int)),
            store@.reads == old(store)@.reads,
            store@.next_id == old(store)@.next_id,
            store@.apis == old(store)@.apis,
            same_rows(store@, old(store)@),
            same_sightings(store@, old(store)@),
            out@.len() == refused_settings(sp.take(i as int)).len(),
            forall|k: int| 0 <= k < out@.len() ==> (#[trigger] out@[k] matches Responses::Error { error: Errors::DatabaseError { message } }
                && message@ == refused_settings(sp.take(i as int))[k]),
        decreases settings.len() - i,
    {
        let s = &settings[i];
        let ghost prev = sp.take(i as int);
        let ghost next = sp.take(i + 1);
        assert(next.drop_last() =~= prev);
        assert(next.last() == s@);
        match classify_setting(s.Name().as_str()) {
            SettingKind::Voice | SettingKind::Stored => {
                let _ = store.set_setting(s);
            },
            SettingKind::Invalid => {
                let error = invalid_setting_error(s.Name().as_str());
                out.push(Responses::Error { error });
            },
        }
        i = i + 1;
    }
    assert(sp.take(settings@.len() as int) =~= sp);
    out
}

fn reply(responses: Vec<Responses>, action: ConnectionAction) -> (r: Answer)
    ensures
        r.responses@ == responses@,
        r.broadcast@.len() == 0,
        r.action == action,
{
    Answer { responses, broadcast: Vec::new(), action }
}

fn one(response: Responses) -> (r: Vec<Responses>)
    ensures
        r@ == seq![response],
{
    let mut v: Vec<Responses> = Vec::new();
    v.push(response);
    v
}

fn database_error(prefix: &str, e: crate::database::DBError) -> (r: Responses)
    ensures
        r matches Responses::Error { error: Errors::DatabaseError { message } } && message@ == prefix@ + db_error_text(e),
{
    let mut message = String::from_str(prefix);
    let text = e.to_text();
    message.append(text.as_str());
    Responses::Error { error: Errors::DatabaseError { message } }
}

/// Answers one request from the client at place `slot`.
pub fn answer_request(
    store: &mut MemStore,
    readers: &mut Vec<Reader>,
    repeaters: &mut ReadRepeaters,
    uploader: &mut Uploader,
    portal: PortalInfo,
    slot: usize,
    req: Request,
) -> (r: Answer)
    requires
        old(store).wf(),
        req is Subscribe || req is Connect ==> slot < MAX_CONNECTED,
    ensures
        final(store).wf(),
        !(req is ReadsAdd || req is ReadsDelete || req is ReadsDeleteAll || req is ApiSave || req is ApiRemove
            || req is SettingsSet || req is ApiRemoteAutoUpload || req is ReaderAdd || req is ReaderRemove
            || req is ApiSaveAll) ==> final(store)@ == old(store)@,
        !(req is ReaderAdd || req is ReaderRemove) ==> final(readers)@ == old(readers)@,
        !(req is ApiRemoteAutoUpload) ==> final(uploader)@ == old(uploader)@,
        !(req is Subscribe || req is Connect) ==> final(repeaters)@ == old(repeaters)@,
        !(req is ApiSave || req is ApiRemove || req is SettingsSet || req is ReaderAdd || req is ReaderRemove
            || req is ApiSaveAll) ==> r.broadcast@.len() == 0,
        req is ReaderList ==> r.action is Continue && (portal.auto_connect == State::Running ==> r.responses@
            == seq![Responses::Error { error: Errors::StartingUp }]) && (portal.auto_connect != State::Running
            ==> r.responses@.len() == 1 && (r.responses@[0] matches Responses::Readers { readers: list }
            && shows_readers(list@, reader_views(old(readers)@)))),
        req is ReaderGetAll ==> r.action is Continue && r.responses@.len() == 1 && (r.responses@[0] matches
            Responses::Readers { readers: list } && shows_readers(list@, reader_views(old(readers)@))),
        req matches Request::ReaderAdd { id, name, kind, ip_address, port, auto_connect } ==> {
            let ac = if auto_connect { AUTO_CONNECT_TRUE } else { AUTO_CONNECT_FALSE };
            let last = old(store)@.last_reader_id;
            &&& r.action is Continue
            &&& !readers_changeable(portal.auto_connect) ==> final(store)@ == old(store)@ && final(readers)@ == old(readers)@
                && r.responses@ == seq![Responses::Error { error: Errors::StartingUp }]
            &&& readers_changeable(portal.auto_connect) && kind@ != READER_KIND_ZEBRA@ ==> final(store)@ == old(store)@
                && final(readers)@ == old(readers)@ && r.responses@.len() == 1
                && (r.responses@[0] matches Responses::Error { error: Errors::InvalidReaderType { message } }
                && message@ == "Error Retrieving Data: "@ + (if kind@ == READER_KIND_IMPINJ@ || kind@ == READER_KIND_RFID@ {
                    "not yet implemented"@ } else { "unknown reader kind specified"@ }))
            &&& readers_changeable(portal.auto_connect) && kind@ == READER_KIND_ZEBRA@ && (id > 0 || last < i64::MAX) ==> {
                &&& final(store)@.readers == readers_after_save(old(store)@.readers,
                    fresh_reader(id, kind@, name@, ip_address@, port, ac), last)
                &&& final(store)@.settings == old(store)@.settings
                &&& final(store)@.reads == old(store)@.reads
                &&& final(store)@.apis == old(store)@.apis
                &&& reader_views(final(readers)@) == live_after_add(reader_views(old(readers)@), id, kind@, name@,
                    ip_address@, port, ac, if id > 0 { id } else { (last + 1) as i64 })
                &&& r.responses@.len() == 0
                &&& r.broadcast@.len() == 1
                &&& (r.broadcast@[0] matches Responses::Readers { readers: list }
                    && shows_readers(list@, reader_views(final(readers)@)))
            }
            &&& readers_changeable(portal.auto_connect) && kind@ == READER_KIND_ZEBRA@ && id <= 0 && last == i64::MAX
                ==> final(store)@ == old(store)@ && final(readers)@ == old(readers)@ && r.responses@.len() == 1
                && (r.responses@[0] matches Responses::Error { error: Errors::DatabaseError { message } }
                && message@ == "unexpected error saving reader to database: Error Inserting Data: database or disk is full"@)
        },
        req matches Request::ReaderRemove { id } ==> {
            &&& r.action is Continue
            &&& !readers_changeable(portal.auto_connect) ==> final(store)@ == old(store)@ && final(readers)@ == old(readers)@
                && r.responses@ == seq![Responses::Error { error: Errors::StartingUp }]
            &&& readers_changeable(portal.auto_connect) ==> {
                &&& final(store)@.readers == old(store)@.readers.filter(reader_id_not(id))
                &&& final(store)@.settings == old(store)@.settings
                &&& final(store)@.reads == old(store)@.reads
                &&& final(store)@.apis == old(store)@.apis
                &&& reader_views(final(readers)@) == live_after_remove(reader_views(old(readers)@), id)
                &&& r.responses@.len() == 0
                &&& r.broadcast@.len() == 1
                &&& (r.broadcast@[0] matches Responses::Readers { readers: list }
                    && shows_readers(list@, reader_views(final(readers)@)))
            }
        },
        req matches Request::ApiSaveAll { list } ==> {
            let lv = api_views(list@);
            &&& r.action is Continue
            &&& final(store)@.settings == old(store)@.settings
            &&& final(store)@.reads == old(store)@.reads
            &&& final(store)@.readers == old(store)@.readers
            &&& list_adds_remote(old(store)@.apis, lv) ==> final(store)@ == old(store)@
                && r.responses@ == seq![Responses::Error { error: Errors::TooManyRemoteApi }] && r.broadcast@.len() == 0
            &&& !list_adds_remote(old(store)@.apis, lv) && list_has_unknown_kind(lv) ==> final(store)@ == old(store)@
                && r.broadcast@.len() == 0 && r.responses@.len() == 1
                && (r.responses@[0] matches Responses::Error { error: Errors::InvalidApiType { message } }
                && message@ == "one or more invalid api types found"@)
            &&& !list_adds_remote(old(store)@.apis, lv) && !list_has_unknown_kind(lv) ==> ({
                let saved = apis_after_saves(old(store)@.apis, old(store)@.last_api_id,
                    lv.map_values(|x: ApiView| as_saved(old(store)@.apis, x)));
                &&& final(store)@.apis == saved.0
                &&& final(store)@.last_api_id == saved.1
                &&& saved.2 ==> r.broadcast@.len() == 0 && r.responses@.len() == 1 && (r.responses@[0] matches
                    Responses::Error { error: Errors::DatabaseError { message } } && message@ == "error saving one or more apis"@)
                &&& !saved.2 ==> r.responses@.len() == 0 && r.broadcast@.len() == 1 && (r.broadcast@[0] matches
                    Responses::ApiList { apis } && api_views(apis@) == final(store)@.apis)
            })
        },
        req matches Request::Connect { reads } ==> {
            &&& r.action is Continue
            &&& final(repeaters)@ == old(repeaters)@.update(slot as int, reads)
            &&& r.responses@.len() == 1
            &&& (r.responses@[0] matches Responses::ConnectionSuccessful {
                name, kind, version, reads_subscribed, readers: list, updatable, auto_upload, portal_version }
                && name@ == (if old(store)@.settings.contains_key(SETTING_PORTAL_NAME@) {
                    old(store)@.settings[SETTING_PORTAL_NAME@] } else { "Unknown"@ })
                && kind@ == CONNECTION_TYPE@ && version == CONNECTION_VERS && reads_subscribed == reads
                && shows_readers(list@, reader_views(old(readers)@)) && updatable == portal.updatable
                && auto_upload == old(uploader)@.status && portal_version == portal.version)
        },
        req is SettingsGetAll ==> {
            &&& r.action is Continue
            &&& r.responses@.len() == 1
            &&& (r.responses@[0] matches Responses::SettingsAll { settings, readers: list, apis, auto_upload, portal_version }
                && setting_pairs(settings@) == present_settings(old(store)@.settings, client_setting_names())
                && shows_readers(list@, reader_views(old(readers)@)) && api_views(apis@) == old(store)@.apis
                && auto_upload == old(uploader)@.status && portal_version == portal.version)
        },
        req is Disconnect ==> r.action is Close && r.responses@ == seq![Responses::Disconnect],
        req is KeepaliveAck ==> r.action is Continue && r.responses@.len() == 0,
        req is Quit ==> r.action is Quit && r.responses@.len() == 0,
        req is Shutdown ==> r.action is Shutdown && r.responses@.len() == 0,
        req is Restart ==> r.action is Restart && r.responses@.len() == 0,
        req is Unknown ==> r.action is Continue && r.responses@ == seq![Responses::Error { error: Errors::UnknownCommand }],
        req is ReadsGetAll ==> r.action is Continue && r.responses@.len() == 1 && (r.responses@[0] matches
            Responses::Reads { list } && read_views(list@) == old(store)@.reads),
        req matches Request::ReadsGet { start_seconds, end_seconds } ==> r.action is Continue
            && r.responses@.len() == 1 && (r.responses@[0] matches Responses::Reads { list }
            && read_views(list@) == old(store)@.reads.filter(inside_span(start_seconds, end_seconds))),
        req matches Request::ReadsDelete { start_seconds, end_seconds } ==> {
            &&& r.action is Continue
            &&& final(store)@.reads == old(store)@.reads.filter(outside_span(start_seconds, end_seconds))
            &&& final(store)@.settings == old(store)@.settings
            &&& final(store)@.apis == old(store)@.apis
            &&& r.responses@ == seq![Responses::Success { count: (old(store)@.reads.len() - final(store)@.reads.len()) as usize }]
        },
        req is ReadsDeleteAll ==> {
            &&& r.action is Continue
            &&& final(store)@.reads == Seq::<ReadView>::empty()
            &&& final(store)@.settings == old(store)@.settings
            &&& final(store)@.apis == old(store)@.apis
            &&& r.responses@ == seq![Responses::Success { count: old(store)@.reads.len() as usize }]
        },
        req matches Request::ReadsAdd { read } ==> {
            &&& r.action is Continue
            &&& final(store)@.settings == old(store)@.settings
            &&& final(store)@.apis == old(store)@.apis
            &&& !valid_read(read@) ==> r.responses@ == seq![Responses::Error { error: Errors::InvalidRead }]
                && final(store)@ == old(store)@
            &&& valid_read(read@) && read_fits(old(store)@, read@) ==> r.responses@.len() == 0
                && final(store)@.reads == store_reads(old(store)@.reads, old(store)@.next_id as int, seq![read@])
            &&& valid_read(read@) && !read_fits(old(store)@, read@) ==> final(store)@ == old(store)@
                && r.responses@.len() == 1 && (r.responses@[0] matches Responses::Error { error: Errors::DatabaseError { .. } })
        },
        req is SettingsGet ==> r.action is Continue && r.responses@.len() == 1 && (r.responses@[0] matches
            Responses::Settings { settings } && setting_pairs(settings@) == present_settings(old(store)@.settings, client_setting_names())),
        req is ApiList ==> r.action is Continue && r.responses@.len() == 1 && (r.responses@[0] matches
            Responses::ApiList { apis } && api_views(apis@) == old(store)@.apis),
        req matches Request::ApiSave { id, name, kind, uri, token } ==> {
            &&& r.action is Continue
            &&& final(store)@.settings == old(store)@.settings
            &&& final(store)@.reads == old(store)@.reads
            &&& !remote_kind(kind@) ==> final(store)@ == old(store)@ && r.responses@.len() == 1
                && (r.responses@[0] matches Responses::Error { error: Errors::InvalidApiType { message } }
                && message@ == "'"@ + kind@ + "' is not a valid api type"@)
            &&& remote_kind(kind@) && other_remote_exists(old(store)@.apis, id) ==> final(store)@ == old(store)@
                && r.responses@ == seq![Responses::Error { error: Errors::TooManyRemoteApi }]
            &&& remote_kind(kind@) && !other_remote_exists(old(store)@.apis, id) && (id > 0 || old(store)@.last_api_id < i64::MAX) ==> {
                &&& final(store)@.apis == apis_after_save(old(store)@.apis,
                    ApiView { id, nickname: name@, kind: kind@, token: token@, uri: remote_uri(kind@, uri@) },
                    old(store)@.last_api_id)
                &&& r.responses@.len() == 0
                &&& r.broadcast@.len() == 1
                &&& (r.broadcast@[0] matches Responses::ApiList { apis } && api_views(apis@) == final(store)@.apis)
            }
            &&& remote_kind(kind@) && !other_remote_exists(old(store)@.apis, id) && id <= 0 && old(store)@.last_api_id == i64::MAX
                ==> final(store)@ == old(store)@ && r.responses@.len() == 1
                && (r.responses@[0] matches Responses::Error { error: Errors::DatabaseError { message } }
                && message@ == "error saving api: Error Inserting Data: database or disk is full"@)
        },
        req matches Request::ApiRemove { id } ==> {
            &&& r.action is Continue
            &&& final(store)@.apis == old(store)@.apis.filter(api_id_not(id))
            &&& final(store)@.settings == old(store)@.settings
            &&& final(store)@.reads == old(store)@.reads
            &&& r.responses@.len() == 0
            &&& r.broadcast@.len() == 1
            &&& (r.broadcast@[0] matches Responses::ApiList { apis } && api_views(apis@) == final(store)@.apis)
        },
        req matches Request::SettingsSet { settings } ==> {
            &&& r.action is Reload
            &&& final(store)@.settings == settings_after(old(store)@.settings, setting_pairs(settings@))
            &&& final(store)@.reads == old(store)@.reads
            &&& final(store)@.apis == old(store)@.apis
            &&& r.responses@.len() == refused_settings(setting_pairs(settings@)).len()
            &&& forall|k: int| 0 <= k < r.responses@.len() ==> (#[trigger] r.responses@[k] matches Responses::Error {
                error: Errors::DatabaseError { message } } && message@ == refused_settings(setting_pairs(settings@))[k])
            &&& r.broadcast@.len() == 1
            &&& (r.broadcast@[0] matches Responses::Settings { settings: now } && setting_pairs(now@)
                == present_settings(final(store)@.settings, client_setting_names()))
        },
        req matches Request::ApiRemoteAutoUpload { query } ==> {
            &&& r.broadcast@.len() == 0
            &&& final(store)@.reads == old(store)@.reads
            &&& final(store)@.apis == old(store)@.apis
            &&& query is Start ==> {
                &&& final(store)@.settings == old(store)@.settings.insert(SETTING_AUTO_REMOTE@, "true"@)
                &&& final(uploader)@ == old(uploader)@
                &&& old(uploader)@.status == Status::Running ==> r.action is Reload
                    && r.responses@ == seq![Responses::Error { error: Errors::AlreadyRunning }]
                &&& old(uploader)@.status != Status::Running ==> r.action is StartUploader && r.responses@.len() == 0
            }
            &&& query is Stop ==> {
                &&& final(store)@.settings == old(store)@.settings.insert(SETTING_AUTO_REMOTE@, "false"@)
                &&& r.action is Reload
                &&& old(uploader)@.status == Status::Running ==> final(uploader)@ == (UploaderView {
                    status: Status::Stopping,
                    keepalive: false,
                }) && r.responses@.len() == 0
                &&& old(uploader)@.status != Status::Running ==> final(uploader)@ == old(uploader)@
                    && r.responses@ == seq![Responses::Error { error: Errors::NotRunning }]
            }
            &&& query is Status ==> {
                &&& final(store)@ == old(store)@
                &&& final(uploader)@ == old(uploader)@
                &&& r.action is Continue
                &&& r.responses@ == seq![Responses::ReadAutoUpload { status: old(uploader)@.status }]
            }
        },
        req matches Request::Subscribe { reads } ==> {
            &&& r.action is Continue
            &&& old(repeaters)@[slot as int] == reads ==> final(repeaters)@ == old(repeaters)@ && r.responses@.len() == 1
                && (r.responses@[0] matches Responses::Error { error: Errors::AlreadySubscribed { message } }
                && message@ == "reads already set to "@ + (if reads { "true"@ } else { "false"@ }))
            &&& old(repeaters)@[slot as int] != reads ==> final(repeaters)@ == old(repeaters)@.update(slot as int, reads)
                && r.responses@.len() == 0
        },
        req is ApiRemoteManualUpload ==> {
            &&& !has_remote(old(store)@.apis) ==> r.action is Continue
                && r.responses@ == seq![Responses::Error { error: Errors::NoRemoteApi }]
            &&& has_remote(old(store)@.apis) ==> r.responses@.len() == 0 && (r.action matches ConnectionAction::Upload { api, reads }
                && (exists|i: int| first_remote(old(store)@.apis, i) && api@ == old(store)@.apis[i])
                && read_views(reads@) == old(store)@.reads)
        },
        req is TimeSet ==> {
            &&& (exists|i: int| 0 <= i < old(readers)@.len() && (#[trigger] old(readers)@[i])@.connected) ==> {
                &&& r.action is Continue
                &&& r.responses@.len() == 1
                &&& (r.responses@[0] matches Responses::Error { error: Errors::NotAllowed { message } }
                    && message@ == "setting time not allowed with a reader connected"@)
            }
            &&& (forall|i: int| 0 <= i < old(readers)@.len() ==> !(#[trigger] old(readers)@[i])@.connected)
                ==> r.action == ConnectionAction::Outside(req) && r.responses@.len() == 0
        },
        (req is ReaderConnect || req is ReaderStart) ==> {
            let id = reader_target(req);
            let lv = reader_views(old(readers)@);
            &&& r.broadcast@.len() == 0
            &&& !readers_changeable(portal.auto_connect) ==> r.action is Continue
                && r.responses@ == seq![Responses::Error { error: Errors::StartingUp }]
            &&& readers_changeable(portal.auto_connect) && (forall|i: int| 0 <= i < lv.len() ==> #[trigger] lv[i].id != id)
                ==> r.action is Continue && r.responses@ == seq![Responses::Error { error: Errors::NotFound }]
            &&& readers_changeable(portal.auto_connect) ==> forall|i: int| first_with_id(lv, id, i) ==> {
                &&& lv[i].connected ==> r.action is Continue
                    && r.responses@ == seq![Responses::Error { error: Errors::AlreadyRunning }]
                &&& !lv[i].connected ==> r.responses@.len() == 0
                    && (r.action matches ConnectionAction::ConnectReaders { ids } && ids@ == seq![id])
            }
        },
        (req is ReaderDisconnect || req is ReaderStop) ==> {
            let id = reader_target(req);
            let lv = reader_views(old(readers)@);
            &&& r.broadcast@.len() == 0
            &&& !readers_changeable(portal.auto_connect) ==> r.action is Continue
                && r.responses@ == seq![Responses::Error { error: Errors::StartingUp }]
            &&& readers_changeable(portal.auto_connect) && (forall|i: int| 0 <= i < lv.len() ==> #[trigger] lv[i].id != id)
                ==> r.responses@ == seq![Responses::Error { error: Errors::NotFound }]
                && (r.action matches ConnectionAction::DisconnectReaders { ids } && ids@.len() == 0)
            &&& readers_changeable(portal.auto_connect) && (exists|i: int| 0 <= i < lv.len() && #[trigger] lv[i].id == id)
                ==> r.responses@.len() == 0 && (r.action matches ConnectionAction::DisconnectReaders { ids } && ids@ == seq![id])
        },
        req is ReaderStartAll ==> {
            &&& r.broadcast@.len() == 0
            &&& !readers_changeable(portal.auto_connect) ==> r.action is Continue
                && r.responses@ == seq![Responses::Error { error: Errors::StartingUp }]
            &&& readers_changeable(portal.auto_connect) ==> r.responses@.len() == 0 && (r.action matches
                ConnectionAction::ConnectReaders { ids } && ids@ == ids_with_state(reader_views(old(readers)@), false))
        },
        req is ReaderStopAll ==> {
            &&& r.broadcast@.len() == 0
            &&& !readers_changeable(portal.auto_connect) ==> r.action is Continue
                && r.responses@ == seq![Responses::Error { error: Errors::StartingUp }]
            &&& readers_changeable(portal.auto_connect) ==> r.responses@.len() == 0 && (r.action matches
                ConnectionAction::DisconnectReaders { ids } && ids@ == ids_with_state(reader_views(old(readers)@), true))
        },
        (req is TimeGet || req is Update || req is SetNoficiation)
            ==> r.action == ConnectionAction::Outside(req) && r.responses@.len() == 0,
{
    match req {
        Request::Disconnect => reply(one(Responses::Disconnect), ConnectionAction::Close),
        Request::KeepaliveAck => reply(Vec::new(), ConnectionAction::Continue),
        Request::Quit => reply(Vec::new(), ConnectionAction::Quit),
        Request::Shutdown => reply(Vec::new(), ConnectionAction::Shutdown),
        Request::Restart => reply(Vec::new(), ConnectionAction::Restart),
        Request::Unknown => reply(one(Responses::Error { error: Errors::UnknownCommand }), ConnectionAction::Continue),
        Request::ReadsGetAll => {
            let list = match store.get_all_reads() {
                Ok(v) => v,
                Err(_) => Vec::new(),
            };
            reply(one(Responses::Reads { list }), ConnectionAction::Continue)
        },
        Request::ReadsGet { start_seconds, end_seconds } => {
            let list = match store.get_reads(start_seconds, end_seconds) {
                Ok(v) => v,
                Err(_) => Vec::new(),
            };
            reply(one(Responses::Reads { list }), ConnectionAction::Continue)
        },
        Request::ReadsDelete { start_seconds, end_seconds } => {
            let count = match store.delete_reads(start_seconds, end_seconds) {
                Ok(n) => n,
                Err(_) => 0,
            };
            reply(one(Responses::Success { count }), ConnectionAction::Continue)
        },
        Request::ReadsDeleteAll => {
            let count = match store.delete_all_reads() {
                Ok(n) => n,
                Err(_) => 0,
            };
            reply(one(Responses::Success { count }), ConnectionAction::Continue)
        },
        Request::ReadsAdd { read } => {
            if !read.is_valid() {
                return reply(one(Responses::Error { error: Errors::InvalidRead }), ConnectionAction::Continue);
            }
            let ghost rv = read@;
            let mut reads: Vec<Read> = Vec::new();
            reads.push(read);
            assert(read_views(reads@) =~= seq![rv]);
            match store.save_reads(&reads) {
                Ok(_) => reply(Vec::new(), ConnectionAction::Continue),
                Err(e) => {
                    proof {
                        if read_fits(old(store)@, rv) {
                            assert(forall|k: int| 0 <= k < reads@.len() ==> valid_status(#[trigger] reads@[k]@.status));
                        }
                    }
                    reply(one(database_error("error saving manual read: ", e)), ConnectionAction::Continue)
                },
            }
        },
        Request::SettingsGet => {
            let settings = get_settings(store);
            reply(one(Responses::Settings { settings }), ConnectionAction::Continue)
        },
        Request::ApiList => {
            let apis = match store.get_apis() {
                Ok(v) => v,
                Err(_) => Vec::new(),
            };
            reply(one(Responses::ApiList { apis }), ConnectionAction::Continue)
        },
        Request::ApiSave { id, name, kind, uri, token } => {
            let existing = match store.get_apis() {
                Ok(v) => v,
                Err(_) => Vec::new(),
            };
            match plan_api_save(id, name, kind, uri, token, &existing) {
                Err(error) => reply(one(Responses::Error { error }), ConnectionAction::Continue),
                Ok(api) => match store.save_api(&api) {
                    Ok(_) => {
                        let apis = match store.get_apis() {
                            Ok(v) => v,
                            Err(_) => Vec::new(),
                        };
                        Answer { responses: Vec::new(), broadcast: one(Responses::ApiList { apis }), action: ConnectionAction::Continue }
                    },
                    Err(e) => {
                        proof {
                            reveal_strlit("error saving api: ");
                            reveal_strlit("Error Inserting Data: ");
                            reveal_strlit("database or disk is full");
                        }
                        let answer = database_error("error saving api: ", e);
                        proof {
                            assert(("error saving api: "@ + ("Error Inserting Data: "@ + "database or disk is full"@))
                                =~= "error saving api: Error Inserting Data: database or disk is full"@) by {
                                reveal_strlit("error saving api: Error Inserting Data: database or disk is full");
                            }
                        }
                        reply(one(answer), ConnectionAction::Continue)
                    },
                },
            }
        },
        Request::ApiRemove { id } => {
            let _ = store.delete_api(&id);
            let apis = match store.get_apis() {
                Ok(v) => v,
                Err(_) => Vec::new(),
            };
            Answer { responses: Vec::new(), broadcast: one(Responses::ApiList { apis }), action: ConnectionAction::Continue }
        },
        Request::SettingsSet { settings } => {
            let responses = apply_settings(store, &settings);
            let now = get_settings(store);
            Answer { responses, broadcast: one(Responses::Settings { settings: now }), action: ConnectionAction::Reload }
        },
        Request::ReaderList => {
            if portal.auto_connect == State::Running {
                reply(one(Responses::Error { error: Errors::StartingUp }), ConnectionAction::Continue)
            } else {
                reply(one(Responses::Readers { readers: client_readers(readers) }), ConnectionAction::Continue)
            }
        },
        Request::ReaderConnect { id } | Request::ReaderStart { id } => {
            if !may_change_readers(portal.auto_connect) {
                return reply(one(Responses::Error { error: Errors::StartingUp }), ConnectionAction::Continue);
            }
            match find_live(readers, id) {
                None => reply(one(Responses::Error { error: Errors::NotFound }), ConnectionAction::Continue),
                Some(i) => {
                    assert(reader_views(readers@)[i as int] == readers@[i as int]@);
                    if readers[i].is_connected() == Some(true) {
                        reply(one(Responses::Error { error: Errors::AlreadyRunning }), ConnectionAction::Continue)
                    } else {
                        reply(Vec::new(), ConnectionAction::ConnectReaders { ids: vec![id] })
                    }
                },
            }
        },
        Request::ReaderDisconnect { id } | Request::ReaderStop { id } => {
            if !may_change_readers(portal.auto_connect) {
                return reply(one(Responses::Error { error: Errors::StartingUp }), ConnectionAction::Continue);
            }
            match find_live(readers, id) {
                None => reply(one(Responses::Error { error: Errors::NotFound }), ConnectionAction::DisconnectReaders { ids: Vec::new() }),
                Some(i) => {
                    assert(reader_views(readers@)[i as int] == readers@[i as int]@);
                    reply(Vec::new(), ConnectionAction::DisconnectReaders { ids: vec![id] })
                },
            }
        },
        Request::ReaderStartAll => {
            if !may_change_readers(portal.auto_connect) {
                return reply(one(Responses::Error { error: Errors::StartingUp }), ConnectionAction::Continue);
            }
            reply(Vec::new(), ConnectionAction::ConnectReaders { ids: live_ids(readers, false) })
        },
        Request::ReaderStopAll => {
            if !may_change_readers(portal.auto_connect) {
                return reply(one(Responses::Error { error: Errors::StartingUp }), ConnectionAction::Continue);
            }
            reply(Vec::new(), ConnectionAction::DisconnectReaders { ids: live_ids(readers, true) })
        },
        Request::ApiRemoteManualUpload => {
            let apis = match store.get_apis() {
                Ok(v) => v,
                Err(_) => Vec::new(),
            };
            match find_remote(&apis) {
                None => reply(one(Responses::Error { error: Errors::NoRemoteApi }), ConnectionAction::Continue),
                Some(i) => {
                    let api = apis[i].clone();
                    assert(api@ == api_views(apis@)[i as int]);
                    let reads = match store.get_all_reads() {
                        Ok(v) => v,
                        Err(_) => Vec::new(),
                    };
                    reply(Vec::new(), ConnectionAction::Upload { api, reads })
                },
            }
        },
        Request::TimeSet { time } => {
            if time_set_allowed(readers) {
                reply(Vec::new(), ConnectionAction::Outside(Request::TimeSet { time }))
            } else {
                let message = String::from_str("setting time not allowed with a reader connected");
                reply(one(Responses::Error { error: Errors::NotAllowed { message } }), ConnectionAction::Continue)
            }
        },
        Request::ReaderGetAll => reply(one(Responses::Readers { readers: client_readers(readers) }), ConnectionAction::Continue),
        Request::ReaderAdd { id, name, kind, ip_address, port, auto_connect } => {
            if !may_change_readers(portal.auto_connect) {
                return reply(one(Responses::Error { error: Errors::StartingUp }), ConnectionAction::Continue);
            }
            let ac = if auto_connect { AUTO_CONNECT_TRUE } else { AUTO_CONNECT_FALSE };
            match Reader::new_no_repeaters(id, kind, name, ip_address, port, ac) {
                Err(e) => {
                    proof {
                        reveal_strlit("Error Retrieving Data: ");
                    }
                    let message = e.to_text();
                    reply(one(Responses::Error { error: Errors::InvalidReaderType { message } }), ConnectionAction::Continue)
                },
                Ok(added) => {
                    match store.save_reader(&added) {
                        Ok(saved) => {
                            add_live_reader(readers, added, saved);
                            let list = client_readers(readers);
                            Answer { responses: Vec::new(), broadcast: one(Responses::Readers { readers: list }), action: ConnectionAction::Continue }
                        },
                        Err(e) => {
                            let answer = database_error("unexpected error saving reader to database: ", e);
                            proof {
                                reveal_strlit("unexpected error saving reader to database: ");
                                reveal_strlit("Error Inserting Data: ");
                                reveal_strlit("database or disk is full");
                                reveal_strlit("unexpected error saving reader to database: Error Inserting Data: database or disk is full");
                                assert(("unexpected error saving reader to database: "@ + ("Error Inserting Data: "@ + "database or disk is full"@))
                                    =~= "unexpected error saving reader to database: Error Inserting Data: database or disk is full"@);
                            }
                            reply(one(answer), ConnectionAction::Continue)
                        },
                    }
                },
            }
        },
        Request::ReaderRemove { id } => {
            if !may_change_readers(portal.auto_connect) {
                return reply(one(Responses::Error { error: Errors::StartingUp }), ConnectionAction::Continue);
            }
            let _ = store.delete_reader(&id);
            remove_live_reader(readers, id);
            let list = client_readers(readers);
            Answer { responses: Vec::new(), broadcast: one(Responses::Readers { readers: list }), action: ConnectionAction::Continue }
        },
        Request::ApiSaveAll { list } => {
            let (responses, broadcast) = save_all_apis(store, &list);
            Answer { responses, broadcast, action: ConnectionAction::Continue }
        },
        Request::Connect { reads } => {
            repeaters.connect(slot, reads);
            let name = match store.get_setting(SETTING_PORTAL_NAME) {
                Ok(s) => s.Value().clone(),
                Err(_) => String::from_str("Unknown"),
            };
            let list = client_readers(readers);
            reply(one(Responses::ConnectionSuccessful {
                name,
                kind: String::from_str(CONNECTION_TYPE),
                version: CONNECTION_VERS,
                reads_subscribed: reads,
                readers: list,
                updatable: portal.updatable,
                auto_upload: uploader.status(),
                portal_version: portal.version,
            }), ConnectionAction::Continue)
        },
        Request::SettingsGetAll => {
            let settings = get_settings(store);
            let list = client_readers(readers);
            let apis = match store.get_apis() {
                Ok(v) => v,
                Err(_) => Vec::new(),
            };
            reply(one(Responses::SettingsAll {
                settings,
                readers: list,
                apis,
                auto_upload: uploader.status(),
                portal_version: portal.version,
            }), ConnectionAction::Continue)
        },
        Request::ApiRemoteAutoUpload { query } => {
            match plan_upload_query(query, uploader.running()) {
                UploadPlan::Start => {
                    let _ = store.set_setting(&Setting::new(String::from_str(SETTING_AUTO_REMOTE), String::from_str("true")));
                    reply(Vec::new(), ConnectionAction::StartUploader)
                },
                UploadPlan::AlreadyRunning => {
                    let _ = store.set_setting(&Setting::new(String::from_str(SETTING_AUTO_REMOTE), String::from_str("true")));
                    reply(one(Responses::Error { error: Errors::AlreadyRunning }), ConnectionAction::Reload)
                },
                UploadPlan::Stop => {
                    uploader.stop();
                    let _ = store.set_setting(&Setting::new(String::from_str(SETTING_AUTO_REMOTE), String::from_str("false")));
                    reply(Vec::new(), ConnectionAction::Reload)
                },
                UploadPlan::NotRunning => {
                    let _ = store.set_setting(&Setting::new(String::from_str(SETTING_AUTO_REMOTE), String::from_str("false")));
                    reply(one(Responses::Error { error: Errors::NotRunning }), ConnectionAction::Reload)
                },
                UploadPlan::Report => reply(one(Responses::ReadAutoUpload { status: uploader.status() }), ConnectionAction::Continue),
            }
        },
        Request::Subscribe { reads } => {
            match repeaters.subscribe(slot, reads) {
                Ok(_) => reply(Vec::new(), ConnectionAction::Continue),
                Err(error) => reply(one(Responses::Error { error }), ConnectionAction::Continue),
            }
        },
        other => reply(Vec::new(), ConnectionAction::Outside(other)),
    }
}

} // verus!
