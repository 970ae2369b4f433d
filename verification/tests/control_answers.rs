use portal::control::socket::answer::{answer_request, ConnectionAction, PortalInfo};
use portal::reader::Reader;
use portal::reader::auto_connect::State;
use portal::control::{SETTING_AUTO_REMOTE, SETTING_READ_WINDOW, SETTING_VOICE};
use portal::objects::setting::Setting;
use portal::control::socket::errors::Errors;
use portal::control::socket::requests::{AutoUploadQuery, Request};
use portal::control::socket::responses::Responses;
use portal::control::socket::session::{keepalive_due, ClientSlots, KeepaliveAction, ReadRepeaters};
use portal::control::socket::MAX_CONNECTED;
use portal::database::memstore::MemStore;
use portal::network::api::{Api, API_TYPE_CHRONOKEEP_REMOTE, API_TYPE_CHRONOKEEP_REMOTE_SELF};
use portal::objects::read::{Read, READ_STATUS_UNUSED, READ_UPLOADED_FALSE, READ_UPLOADED_TRUE};
use portal::remote::remote_util::mark_uploaded;
use portal::remote::uploader::{record_uploaded, Status, UploadAction, Uploader};

fn read(chip: &str, seconds: u64) -> Read {
    Read::new(0, String::from(chip), seconds, 0, seconds, 0, 1, String::from("r"), String::from("-50"), READ_STATUS_UNUSED, READ_UPLOADED_FALSE)
}

fn portal(state: State) -> PortalInfo {
    PortalInfo { auto_connect: state, updatable: false, version: "1.0.0" }
}

fn ask(store: &mut MemStore, repeaters: &mut ReadRepeaters, req: Request) -> (Vec<Responses>, Vec<Responses>, ConnectionAction) {
    let mut uploader = Uploader::new();
    let mut readers: Vec<Reader> = Vec::new();
    let a = answer_request(store, &mut readers, repeaters, &mut uploader, portal(State::Finished), 0, req);
    (a.responses, a.broadcast, a.action)
}

#[test]
fn reads_are_added_listed_and_deleted() {
    let mut store = MemStore::new();
    let mut rep = ReadRepeaters::new();
    let (r, _, act) = ask(&mut store, &mut rep, Request::ReadsAdd { read: read("100", 10) });
    assert!(r.is_empty());
    assert!(matches!(act, ConnectionAction::Continue));
    ask(&mut store, &mut rep, Request::ReadsAdd { read: read("200", 20) });
    ask(&mut store, &mut rep, Request::ReadsAdd { read: read("300", 30) });
    match &ask(&mut store, &mut rep, Request::ReadsGetAll).0[0] {
        Responses::Reads { list } => assert_eq!(3, list.len()),
        other => panic!("unexpected {:?}", other),
    }
    match &ask(&mut store, &mut rep, Request::ReadsGet { start_seconds: 15, end_seconds: 30 }).0[0] {
        Responses::Reads { list } => {
            assert_eq!(2, list.len());
            assert_eq!("200", list[0].chip());
        },
        other => panic!("unexpected {:?}", other),
    }
    match &ask(&mut store, &mut rep, Request::ReadsDelete { start_seconds: 0, end_seconds: 15 }).0[0] {
        Responses::Success { count } => assert_eq!(1, *count),
        other => panic!("unexpected {:?}", other),
    }
    match &ask(&mut store, &mut rep, Request::ReadsDeleteAll).0[0] {
        Responses::Success { count } => assert_eq!(2, *count),
        other => panic!("unexpected {:?}", other),
    }
    assert_eq!(0, store.get_all_reads().unwrap().len());
}

#[test]
fn invalid_and_refused_reads_are_answered_with_errors() {
    let mut store = MemStore::new();
    let mut rep = ReadRepeaters::new();
    let mut bad = read("1", 1);
    bad.set_status(9);
    match &ask(&mut store, &mut rep, Request::ReadsAdd { read: bad }).0[0] {
        Responses::Error { error: Errors::DatabaseError { message } } => {
            assert_eq!("error saving manual read: Error Inserting Data: invalid chip read status", message)
        },
        other => panic!("unexpected {:?}", other),
    }
    assert_eq!(0, store.get_all_reads().unwrap().len());
}

#[test]
fn services_are_saved_listed_and_removed_for_everyone() {
    let mut store = MemStore::new();
    let mut rep = ReadRepeaters::new();
    let save = Request::ApiSave {
        id: 0,
        name: String::from("remote"),
        kind: String::from(API_TYPE_CHRONOKEEP_REMOTE_SELF),
        uri: String::from("https://example.org"),
        token: String::from("t"),
    };
    let (r, all, _) = ask(&mut store, &mut rep, save);
    assert!(r.is_empty());
    match &all[0] {
        Responses::ApiList { apis } => {
            assert_eq!(1, apis.len());
            assert_eq!("https://example.org/", apis[0].uri());
            assert_eq!(1, apis[0].id());
        },
        other => panic!("unexpected {:?}", other),
    }
    let second = Request::ApiSave {
        id: 0,
        name: String::from("other"),
        kind: String::from(API_TYPE_CHRONOKEEP_REMOTE),
        uri: String::new(),
        token: String::from("u"),
    };
    assert!(matches!(&ask(&mut store, &mut rep, second).0[0], Responses::Error { error: Errors::TooManyRemoteApi }));
    let wrong = Request::ApiSave {
        id: 0,
        name: String::from("x"),
        kind: String::from("RESULTS"),
        uri: String::new(),
        token: String::new(),
    };
    match &ask(&mut store, &mut rep, wrong).0[0] {
        Responses::Error { error: Errors::InvalidApiType { message } } => assert_eq!("'RESULTS' is not a valid api type", message),
        other => panic!("unexpected {:?}", other),
    }
    match &ask(&mut store, &mut rep, Request::ApiList).0[0] {
        Responses::ApiList { apis } => assert_eq!(1, apis.len()),
        other => panic!("unexpected {:?}", other),
    }
    let (r, all, _) = ask(&mut store, &mut rep, Request::ApiRemove { id: 1 });
    assert!(r.is_empty());
    match &all[0] {
        Responses::ApiList { apis } => assert!(apis.is_empty()),
        other => panic!("unexpected {:?}", other),
    }
}

#[test]
fn connection_requests_and_handed_back_requests() {
    let mut store = MemStore::new();
    let mut rep = ReadRepeaters::new();
    let (r, _, act) = ask(&mut store, &mut rep, Request::Disconnect);
    assert!(matches!(act, ConnectionAction::Close));
    assert!(matches!(r[0], Responses::Disconnect));
    assert!(matches!(ask(&mut store, &mut rep, Request::Quit).2, ConnectionAction::Quit));
    assert!(matches!(ask(&mut store, &mut rep, Request::Shutdown).2, ConnectionAction::Shutdown));
    assert!(matches!(ask(&mut store, &mut rep, Request::Restart).2, ConnectionAction::Restart));
    assert!(ask(&mut store, &mut rep, Request::KeepaliveAck).0.is_empty());
    assert!(matches!(ask(&mut store, &mut rep, Request::Unknown).0[0], Responses::Error { error: Errors::UnknownCommand }));
    assert!(matches!(ask(&mut store, &mut rep, Request::TimeGet).2, ConnectionAction::Outside(Request::TimeGet)));
    assert!(ask(&mut store, &mut rep, Request::Subscribe { reads: true }).0.is_empty());
    assert!(rep.subscribed(0));
    match &ask(&mut store, &mut rep, Request::Subscribe { reads: true }).0[0] {
        Responses::Error { error: Errors::AlreadySubscribed { message } } => assert_eq!("reads already set to true", message),
        other => panic!("unexpected {:?}", other),
    }
    store.setup_with(3);
    match &ask(&mut store, &mut rep, Request::SettingsGet).0[0] {
        Responses::Settings { settings } => assert!(!settings.is_empty()),
        other => panic!("unexpected {:?}", other),
    }
}

#[test]
fn client_places_fill_in_order_and_keep_one_for_the_portal() {
    let mut slots = ClientSlots::new();
    for i in 0..MAX_CONNECTED {
        assert_eq!(Ok(i), slots.accept_client(false).map_err(|_| ()));
    }
    assert!(matches!(slots.accept_client(false), Err(Errors::TooManyConnections)));
    assert_eq!(Ok(MAX_CONNECTED), slots.accept_client(true).map_err(|_| ()));
    assert!(matches!(slots.accept_client(true), Err(Errors::TooManyConnections)));
    slots.release(2);
    assert_eq!(Ok(2), slots.accept_client(true).map_err(|_| ()));
}

#[test]
fn quiet_clients_are_pinged_then_dropped() {
    assert_eq!(KeepaliveAction::Nothing, keepalive_due(1000, 1000));
    assert_eq!(KeepaliveAction::Nothing, keepalive_due(1000, 1030));
    assert_eq!(KeepaliveAction::Ping, keepalive_due(1000, 1031));
    assert_eq!(KeepaliveAction::Ping, keepalive_due(1000, 1060));
    assert_eq!(KeepaliveAction::Disconnect, keepalive_due(1000, 1061));
    assert_eq!(KeepaliveAction::Nothing, keepalive_due(2000, 1000));
    assert_eq!(KeepaliveAction::Nothing, keepalive_due(u64::MAX, u64::MAX));
}

#[test]
fn uploader_turns_follow_the_store() {
    let mut store = MemStore::new();
    let mut up = Uploader::new();
    assert_eq!(Status::Stopped, up.status());
    assert!(up.run());
    assert!(up.running());
    assert!(!up.run());
    // no remote service: the loop ends
    assert!(matches!(up.turn(&store, true), UploadAction::Stop));
    assert_eq!(Status::Stopped, up.status());
    store.save_api(&Api::new(0, String::from("r"), String::from(API_TYPE_CHRONOKEEP_REMOTE), String::from("t"), String::from("https://remote.chronokeep.com/"))).unwrap();
    assert!(up.run());
    assert!(matches!(up.turn(&store, true), UploadAction::Pause));
    store.save_reads(&vec![read("1", 1), read("2", 2)]).unwrap();
    let sent = match up.turn(&store, true) {
        UploadAction::Send { api, reads } => {
            assert_eq!("r", api.nickname());
            assert_eq!(2, reads.len());
            reads
        },
        other => panic!("unexpected {:?}", other),
    };
    let modified = mark_uploaded(&sent[..1]);
    assert_eq!(Ok(1), record_uploaded(&mut store, &modified).map_err(|_| ()));
    let all = store.get_all_reads().unwrap();
    assert_eq!(READ_UPLOADED_TRUE, all[0].uploaded());
    assert_eq!(READ_UPLOADED_FALSE, all[1].uploaded());
    match up.turn(&store, true) {
        UploadAction::Send { reads, .. } => assert_eq!(1, reads.len()),
        other => panic!("unexpected {:?}", other),
    }
    // the program stopping ends the loop
    assert!(matches!(up.turn(&store, false), UploadAction::Stop));
    assert_eq!(Status::Stopped, up.status());
    up.run();
    up.stop();
    assert_eq!(Status::Stopping, up.status());
    assert!(matches!(up.turn(&store, true), UploadAction::Stop));
    assert_eq!(Status::Stopped, up.status());
}

#[test]
fn settings_a_client_may_change_are_written_and_others_refused() {
    let mut store = MemStore::new();
    let mut rep = ReadRepeaters::new();
    let settings = vec![
        Setting::new(String::from(SETTING_READ_WINDOW), String::from("15")),
        Setting::new(String::from("SETTING_BOGUS"), String::from("1")),
        Setting::new(String::from(SETTING_VOICE), String::from("michael")),
    ];
    let (r, all, act) = ask(&mut store, &mut rep, Request::SettingsSet { settings });
    assert!(matches!(act, ConnectionAction::Reload));
    assert_eq!(1, r.len());
    match &r[0] {
        Responses::Error { error: Errors::DatabaseError { message } } => assert_eq!("'SETTING_BOGUS' is not a valid setting", message),
        other => panic!("unexpected {:?}", other),
    }
    assert_eq!("15", store.get_setting(SETTING_READ_WINDOW).unwrap().Value().as_str());
    assert_eq!("michael", store.get_setting(SETTING_VOICE).unwrap().Value().as_str());
    assert!(store.get_setting("SETTING_BOGUS").is_err());
    match &all[0] {
        Responses::Settings { settings } => assert_eq!(2, settings.len()),
        other => panic!("unexpected {:?}", other),
    }
}

#[test]
fn auto_upload_requests_turn_the_uploader_and_the_setting() {

    let mut store = MemStore::new();
    let mut rep = ReadRepeaters::new();
    let mut up = Uploader::new();
    let mut live: Vec<Reader> = Vec::new();
    let a = answer_request(&mut store, &mut live, &mut rep, &mut up, portal(State::Finished), 0, Request::ApiRemoteAutoUpload { query: AutoUploadQuery::Start });
    assert!(matches!(a.action, ConnectionAction::StartUploader));
    assert!(a.responses.is_empty());
    assert_eq!("true", store.get_setting(SETTING_AUTO_REMOTE).unwrap().Value().as_str());
    up.run();
    let a = answer_request(&mut store, &mut live, &mut rep, &mut up, portal(State::Finished), 0, Request::ApiRemoteAutoUpload { query: AutoUploadQuery::Start });
    assert!(matches!(a.responses[0], Responses::Error { error: Errors::AlreadyRunning }));
    let a = answer_request(&mut store, &mut live, &mut rep, &mut up, portal(State::Finished), 0, Request::ApiRemoteAutoUpload { query: AutoUploadQuery::Status });
    assert!(matches!(a.responses[0], Responses::ReadAutoUpload { status: Status::Running }));
    let a = answer_request(&mut store, &mut live, &mut rep, &mut up, portal(State::Finished), 0, Request::ApiRemoteAutoUpload { query: AutoUploadQuery::Stop });
    assert!(matches!(a.action, ConnectionAction::Reload));
    assert_eq!(Status::Stopping, up.status());
    assert_eq!("false", store.get_setting(SETTING_AUTO_REMOTE).unwrap().Value().as_str());
    let mut idle = Uploader::new();
    let a = answer_request(&mut store, &mut live, &mut rep, &mut idle, portal(State::Finished), 0, Request::ApiRemoteAutoUpload { query: AutoUploadQuery::Stop });
    assert!(matches!(a.responses[0], Responses::Error { error: Errors::NotRunning }));
}

fn ask_with(store: &mut MemStore, live: &mut Vec<Reader>, state: State, req: Request) -> (Vec<Responses>, Vec<Responses>, ConnectionAction) {
    let mut rep = ReadRepeaters::new();
    let mut up = Uploader::new();
    let a = answer_request(store, live, &mut rep, &mut up, portal(state), 0, req);
    (a.responses, a.broadcast, a.action)
}

fn add(id: i64, name: &str, kind: &str, port: u16) -> Request {
    Request::ReaderAdd {
        id,
        name: String::from(name),
        kind: String::from(kind),
        ip_address: String::from("10.0.0.5"),
        port,
        auto_connect: true,
    }
}

#[test]
fn readers_are_added_merged_listed_and_removed() {
    let mut store = MemStore::new();
    let mut live: Vec<Reader> = Vec::new();
    // while the portal connects at start-up, readers may not change
    assert!(matches!(ask_with(&mut store, &mut live, State::Running, add(0, "Finish", "ZEBRA", 5084)).0[0],
        Responses::Error { error: Errors::StartingUp }));
    assert!(matches!(ask_with(&mut store, &mut live, State::Running, Request::ReaderList).0[0],
        Responses::Error { error: Errors::StartingUp }));
    match &ask_with(&mut store, &mut live, State::Finished, add(0, "Finish", "IMPINJ", 5084)).0[0] {
        Responses::Error { error: Errors::InvalidReaderType { message } } => assert_eq!("Error Retrieving Data: not yet implemented", message),
        other => panic!("unexpected {:?}", other),
    }
    match &ask_with(&mut store, &mut live, State::Finished, add(0, "Finish", "OTHER", 5084)).0[0] {
        Responses::Error { error: Errors::InvalidReaderType { message } } => assert_eq!("Error Retrieving Data: unknown reader kind specified", message),
        other => panic!("unexpected {:?}", other),
    }
    let (r, all, _) = ask_with(&mut store, &mut live, State::Finished, add(0, "Finish", "ZEBRA", 5084));
    assert!(r.is_empty());
    match &all[0] {
        Responses::Readers { readers } => {
            assert_eq!(1, readers.len());
            assert_eq!(1, readers[0].id);
            assert_eq!("Finish", readers[0].name);
            assert!(readers[0].auto_connect);
            assert_eq!(Some(false), readers[0].connected);
        },
        other => panic!("unexpected {:?}", other),
    }
    ask_with(&mut store, &mut live, State::Unknown, add(0, "Start", "ZEBRA", 5084));
    // a reader of the same name, but for case, takes the running one's place, moved to the end,
    // and a port below 100 means the default
    ask_with(&mut store, &mut live, State::Finished, add(0, "FINISH", "ZEBRA", 50));
    assert_eq!(2, live.len());
    assert_eq!("Start", live[0].nickname());
    assert_eq!("FINISH", live[1].nickname());
    assert_eq!(1, live[1].id());
    assert_eq!(5084, live[1].port());
    match &ask_with(&mut store, &mut live, State::Waiting, Request::ReaderList).0[0] {
        Responses::Readers { readers } => assert_eq!(2, readers.len()),
        other => panic!("unexpected {:?}", other),
    }
    let (_, all, _) = ask_with(&mut store, &mut live, State::Finished, Request::ReaderRemove { id: 2 });
    match &all[0] {
        Responses::Readers { readers } => {
            assert_eq!(1, readers.len());
            assert_eq!(1, readers[0].id);
        },
        other => panic!("unexpected {:?}", other),
    }
    // the store keeps names that differ in case apart: "Finish" (1) and "FINISH" (3) remain
    assert_eq!(2, store.get_readers().unwrap().len());
    match &ask_with(&mut store, &mut live, State::Running, Request::ReaderGetAll).0[0] {
        Responses::Readers { readers } => assert_eq!(1, readers.len()),
        other => panic!("unexpected {:?}", other),
    }
}

#[test]
fn readers_are_connected_and_disconnected_by_the_caller() {
    let mut store = MemStore::new();
    let mut live: Vec<Reader> = Vec::new();
    ask_with(&mut store, &mut live, State::Finished, add(0, "Finish", "ZEBRA", 5084));
    ask_with(&mut store, &mut live, State::Finished, add(0, "Start", "ZEBRA", 5084));
    match ask_with(&mut store, &mut live, State::Finished, Request::ReaderConnect { id: 1 }).2 {
        ConnectionAction::ConnectReaders { ids } => assert_eq!(vec![1], ids),
        other => panic!("unexpected {:?}", other),
    }
    assert!(matches!(ask_with(&mut store, &mut live, State::Finished, Request::ReaderStart { id: 9 }).0[0],
        Responses::Error { error: Errors::NotFound }));
    live[0].set_state(true, true);
    assert!(matches!(ask_with(&mut store, &mut live, State::Finished, Request::ReaderStart { id: 1 }).0[0],
        Responses::Error { error: Errors::AlreadyRunning }));
    match ask_with(&mut store, &mut live, State::Finished, Request::ReaderStartAll).2 {
        ConnectionAction::ConnectReaders { ids } => assert_eq!(vec![2], ids),
        other => panic!("unexpected {:?}", other),
    }
    match ask_with(&mut store, &mut live, State::Finished, Request::ReaderStopAll).2 {
        ConnectionAction::DisconnectReaders { ids } => assert_eq!(vec![1], ids),
        other => panic!("unexpected {:?}", other),
    }
    match ask_with(&mut store, &mut live, State::Finished, Request::ReaderStop { id: 2 }).2 {
        ConnectionAction::DisconnectReaders { ids } => assert_eq!(vec![2], ids),
        other => panic!("unexpected {:?}", other),
    }
    assert!(matches!(ask_with(&mut store, &mut live, State::Running, Request::ReaderDisconnect { id: 2 }).0[0],
        Responses::Error { error: Errors::StartingUp }));
    // the clock may not be set with a reader connected
    match &ask_with(&mut store, &mut live, State::Finished, Request::TimeSet { time: String::from("x") }).0[0] {
        Responses::Error { error: Errors::NotAllowed { message } } => assert_eq!("setting time not allowed with a reader connected", message),
        other => panic!("unexpected {:?}", other),
    }
    live[0].set_state(false, false);
    assert!(matches!(ask_with(&mut store, &mut live, State::Finished, Request::TimeSet { time: String::from("x") }).2,
        ConnectionAction::Outside(Request::TimeSet { .. })));
}

fn api(id: i64, name: &str, kind: &str, uri: &str) -> Api {
    Api::new(id, String::from(name), String::from(kind), String::from("t"), String::from(uri))
}

#[test]
fn a_whole_list_of_services_is_checked_then_saved() {
    let mut store = MemStore::new();
    let mut live: Vec<Reader> = Vec::new();
    let two = vec![api(0, "a", API_TYPE_CHRONOKEEP_REMOTE, "x"), api(0, "b", API_TYPE_CHRONOKEEP_REMOTE_SELF, "y")];
    assert!(matches!(ask_with(&mut store, &mut live, State::Finished, Request::ApiSaveAll { list: two }).0[0],
        Responses::Error { error: Errors::TooManyRemoteApi }));
    match &ask_with(&mut store, &mut live, State::Finished, Request::ApiSaveAll { list: vec![api(0, "c", "RESULTS", "z")] }).0[0] {
        Responses::Error { error: Errors::InvalidApiType { message } } => assert_eq!("one or more invalid api types found", message),
        other => panic!("unexpected {:?}", other),
    }
    let (r, all, _) = ask_with(&mut store, &mut live, State::Finished, Request::ApiSaveAll { list: vec![api(0, "a", API_TYPE_CHRONOKEEP_REMOTE_SELF, "https://h")] });
    assert!(r.is_empty());
    match &all[0] {
        Responses::ApiList { apis } => {
            assert_eq!(1, apis.len());
            // with no remote service stored, the address is saved as sent
            assert_eq!("https://h", apis[0].uri());
        },
        other => panic!("unexpected {:?}", other),
    }
    // with one stored, another remote one is refused, the stored one is saved again with a slash
    assert!(matches!(ask_with(&mut store, &mut live, State::Finished,
        Request::ApiSaveAll { list: vec![api(0, "n", API_TYPE_CHRONOKEEP_REMOTE, "q")] }).0[0],
        Responses::Error { error: Errors::TooManyRemoteApi }));
    let (_, all, _) = ask_with(&mut store, &mut live, State::Finished, Request::ApiSaveAll { list: vec![api(1, "a", API_TYPE_CHRONOKEEP_REMOTE_SELF, "https://h")] });
    match &all[0] {
        Responses::ApiList { apis } => {
            assert_eq!(1, apis.len());
            assert_eq!("https://h/", apis[0].uri());
        },
        other => panic!("unexpected {:?}", other),
    }
}

#[test]
fn connecting_clients_and_full_settings_and_manual_uploads() {
    let mut store = MemStore::new();
    let mut live: Vec<Reader> = Vec::new();
    let mut rep = ReadRepeaters::new();
    let mut up = Uploader::new();
    let a = answer_request(&mut store, &mut live, &mut rep, &mut up, portal(State::Finished), 1, Request::Connect { reads: true });
    match &a.responses[0] {
        Responses::ConnectionSuccessful { name, kind, version, reads_subscribed, auto_upload, portal_version, .. } => {
            assert_eq!("Unknown", name);
            assert_eq!("chrono_portal", kind);
            assert_eq!(1, *version);
            assert!(*reads_subscribed);
            assert_eq!(Status::Stopped, *auto_upload);
            assert_eq!("1.0.0", *portal_version);
        },
        other => panic!("unexpected {:?}", other),
    }
    assert!(rep.subscribed(1));
    store.setup_with(5);
    match &ask_with(&mut store, &mut live, State::Finished, Request::SettingsGetAll).0[0] {
        Responses::SettingsAll { settings, readers, apis, .. } => {
            assert!(!settings.is_empty());
            assert!(readers.is_empty());
            assert!(apis.is_empty());
        },
        other => panic!("unexpected {:?}", other),
    }
    assert!(matches!(ask_with(&mut store, &mut live, State::Finished, Request::ApiRemoteManualUpload).0[0],
        Responses::Error { error: Errors::NoRemoteApi }));
    store.save_api(&api(0, "r", API_TYPE_CHRONOKEEP_REMOTE, "https://remote.chronokeep.com/")).unwrap();
    store.save_reads(&vec![read("1", 1)]).unwrap();
    match ask_with(&mut store, &mut live, State::Finished, Request::ApiRemoteManualUpload).2 {
        ConnectionAction::Upload { api, reads } => {
            assert_eq!("r", api.nickname());
            assert_eq!(1, reads.len());
        },
        other => panic!("unexpected {:?}", other),
    }
}
