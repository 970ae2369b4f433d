use portal::database::memstore::MemStore;
use portal::database::DBError;
use portal::network::api::{Api, API_TYPE_CHRONOKEEP_REMOTE, API_TYPE_CHRONOKEEP_REMOTE_SELF};
use portal::reader::zebra::DEFAULT_ZEBRA_PORT;
use portal::reader::{Reader, AUTO_CONNECT_FALSE, AUTO_CONNECT_TRUE, READER_KIND_ZEBRA};

fn zebra(id: i64, nickname: String, ip: String, port: u16, auto_connect: u8) -> Reader {
    Reader::new_no_repeaters(id, String::from(READER_KIND_ZEBRA), nickname, ip, port, auto_connect).unwrap()
}

#[test]
fn tests_test_save_reader() {
    let original = Reader::new_no_repeaters(
        0,
        String::from(READER_KIND_ZEBRA),
        String::from("zebra-1"),
        String::from("192.168.1.100"),
        DEFAULT_ZEBRA_PORT,
        AUTO_CONNECT_TRUE,
    );
    assert!(original.is_ok());
    let original = original.unwrap();
    let mut memstore = MemStore::new();
    let result = memstore.save_reader(&original);
    assert!(result.is_ok());
    // a brand new store hands out 1 first
    assert_eq!(1, result.unwrap());
    let readers = memstore.get_readers().unwrap();
    assert_eq!(1, readers.len());
    let first = readers.first().unwrap();
    assert_eq!(original.nickname(), first.nickname());
    assert_eq!(original.kind(), first.kind());
    assert_eq!(original.ip_address(), first.ip_address());
    assert_eq!(original.port(), first.port());
    assert_eq!(original.auto_connect(), first.auto_connect());
    // a reader of the same name replaces the first
    let updated_ip = "random_ip";
    let updated_port = 12345;
    let tmp = Reader::new_no_repeaters(
        0,
        String::from(original.kind()),
        String::from(original.nickname()),
        String::from(updated_ip),
        updated_port,
        AUTO_CONNECT_FALSE,
    );
    assert!(tmp.is_ok());
    let tmp = tmp.unwrap();
    let result = memstore.save_reader(&tmp);
    assert!(result.is_ok());
    // second entry, id should be 2
    let row_id = result.unwrap();
    assert_eq!(2, row_id);
    let readers = memstore.get_readers().unwrap();
    assert_eq!(1, readers.len());
    let first = readers.first().unwrap();
    assert_eq!(row_id, first.id());
    assert_eq!(original.nickname(), first.nickname());
    assert_eq!(original.kind(), first.kind());
    assert_eq!(updated_ip, first.ip_address());
    assert_eq!(updated_port, first.port());
    assert_eq!(AUTO_CONNECT_FALSE, first.auto_connect());

    // a reader with the id of a stored one updates it
    let updated_name = "new name";
    let tmp = Reader::new_no_repeaters(
        2,
        String::from(original.kind()),
        String::from(updated_name),
        String::from(original.ip_address()),
        original.port(),
        AUTO_CONNECT_TRUE,
    );
    assert!(tmp.is_ok());
    let tmp = tmp.unwrap();
    let result = memstore.save_reader(&tmp);
    assert!(result.is_ok());
    let row_id = result.unwrap();
    assert_eq!(tmp.id(), row_id);
    let readers = memstore.get_readers().unwrap();
    assert_eq!(1, readers.len());
    let first = readers.first().unwrap();
    assert_eq!(row_id, first.id());
    assert_eq!(updated_name, first.nickname());
    assert_eq!(original.kind(), first.kind());
    assert_eq!(original.ip_address(), first.ip_address());
    assert_eq!(original.port(), first.port());
    assert_eq!(AUTO_CONNECT_TRUE, first.auto_connect());

    // an unknown reader kind is refused
    let result = Reader::new_no_repeaters(
        0,
        String::from("random_type"),
        String::from(original.nickname()),
        String::from(updated_ip),
        updated_port,
        0,
    );
    assert!(result.is_err());
    let mut odd = zebra(0, String::from(original.nickname()), String::from(updated_ip), updated_port, 0);
    odd.set_kind(String::from("random_type"));
    let result = memstore.save_reader(&odd);
    assert!(result.is_err());
    match result {
        Ok(_) => panic!(""),
        Err(DBError::DataInsertionError(_)) => println!("Data check verified."),
        Err(e) => {
            println!("Some other error occurred: {}", e.to_text());
            panic!();
        },
    }
    assert_eq!(1, memstore.get_readers().unwrap().len());
}

#[test]
fn tests_test_get_reader() {
    let original = zebra(0, String::from("zebra-1"), String::from("192.168.1.101"), DEFAULT_ZEBRA_PORT + 1, AUTO_CONNECT_FALSE);
    let mut memstore = MemStore::new();
    _ = memstore.save_reader(&original);
    let readers = memstore.get_readers().unwrap();
    let first = readers.first().unwrap();
    let result = memstore.get_reader(&first.id());
    assert!(result.is_ok());
    let reader = result.unwrap();
    assert!(reader.equal(&original));
    let result = memstore.get_reader(&-1);
    assert!(result.is_err());
    match result {
        Err(DBError::NotFound) => (),
        Err(_) => panic!("Expected NotFound error but found a different error."),
        Ok(_) => panic!("Expected error, found something."),
    }
}

#[test]
fn tests_test_get_readers() {
    let original = zebra(0, String::from("zebra-1"), String::from("192.168.1.101"), DEFAULT_ZEBRA_PORT + 1, AUTO_CONNECT_FALSE);
    let mut memstore = MemStore::new();
    _ = memstore.save_reader(&original);
    let results = memstore.get_readers();
    assert!(results.is_ok());
    let readers = results.unwrap();
    assert_eq!(1, readers.len());
    let first = readers.first().unwrap();
    assert!(first.equal(&original));
    // add a bunch of readers to test that we can get them all
    for i in 2..8 {
        let tmp = zebra(0, format!("zebra-{i}"), format!("192.168.1.10{i}"), DEFAULT_ZEBRA_PORT + i, AUTO_CONNECT_FALSE);
        _ = memstore.save_reader(&tmp);
    }
    let results = memstore.get_readers();
    assert!(results.is_ok());
    let readers = results.unwrap();
    assert_eq!(7, readers.len());
    for reader in readers {
        let num = reader.port() - DEFAULT_ZEBRA_PORT;
        assert_eq!(format!("zebra-{num}"), reader.nickname());
        assert_eq!(READER_KIND_ZEBRA, reader.kind());
        assert_eq!(format!("192.168.1.10{num}"), reader.ip_address());
    }
}

#[test]
fn tests_test_delete_reader() {
    let mut original = zebra(0, String::from("zebra-1"), String::from("192.168.1.101"), DEFAULT_ZEBRA_PORT + 1, AUTO_CONNECT_FALSE);
    let mut memstore = MemStore::new();
    original.set_id(memstore.save_reader(&original).unwrap());
    let readers = memstore.get_readers().unwrap();
    assert_eq!(1, readers.len());
    let first = readers.first().unwrap();
    assert!(first.equal(&original));
    let result = memstore.delete_reader(&original.id());
    assert!(result.is_ok());
    assert_eq!(1, result.unwrap());
    let readers = memstore.get_readers().unwrap();
    assert_eq!(0, readers.len());
    let result = memstore.delete_reader(&original.id());
    assert!(result.is_ok());
    assert_eq!(0, result.unwrap());
    // test delete of a single element
    let middle = 4;
    let mut middle_ix: i64 = -1;
    for i in 0..(middle * 2) {
        let ix = memstore
            .save_reader(&zebra(0, format!("zebra-{i}"), format!("192.168.1.10{i}"), DEFAULT_ZEBRA_PORT, AUTO_CONNECT_FALSE))
            .unwrap();
        if i == middle {
            middle_ix = ix;
        }
    }
    let readers = memstore.get_readers().unwrap();
    assert_eq!(middle * 2, readers.len());
    let result = memstore.delete_reader(&middle_ix);
    assert!(result.is_ok());
    assert_eq!(1, result.unwrap());
    let readers = memstore.get_readers().unwrap();
    assert_eq!((middle * 2) - 1, readers.len());
}

#[test]
fn reader_ids_are_not_reused() {
    let mut memstore = MemStore::new();
    let a = memstore.save_reader(&zebra(0, String::from("a"), String::from("x"), 1, 0)).unwrap();
    assert_eq!(memstore.delete_reader(&a).unwrap(), 1);
    let b = memstore.save_reader(&zebra(0, String::from("b"), String::from("x"), 1, 0)).unwrap();
    assert!(b > a);
    // an id that no reader has changes nothing
    assert_eq!(memstore.save_reader(&zebra(99, String::from("b"), String::from("y"), 2, 0)).unwrap(), 99);
    let readers = memstore.get_readers().unwrap();
    assert_eq!(readers.len(), 1);
    assert_eq!(readers[0].ip_address(), "x");
}

fn remote(id: i64, nickname: &str, kind: &str, token: &str, uri: &str) -> Api {
    Api::new(id, String::from(nickname), String::from(kind), String::from(token), String::from(uri))
}

#[test]
fn tests_test_save_api() {
    let original = remote(0, "results-api", API_TYPE_CHRONOKEEP_REMOTE, "random-token-value", "https:://example.com/");
    let mut memstore = MemStore::new();
    let results = memstore.save_api(&original);
    assert!(results.is_ok());
    assert_ne!(0, results.unwrap());
    let apis = memstore.get_apis().unwrap();
    assert_eq!(1, apis.len());
    let first = apis.first().unwrap();
    assert!(first.equal(&original));
    // the same nickname replaces the entry
    let results = memstore.save_api(&remote(
        0,
        original.nickname(),
        API_TYPE_CHRONOKEEP_REMOTE_SELF,
        "a-different-random-token",
        "https:://random.com/",
    ));
    assert!(results.is_ok());
    assert_ne!(0, results.unwrap());
    let apis = memstore.get_apis().unwrap();
    assert_eq!(1, apis.len());
    let first = apis.first().unwrap();
    assert_eq!(original.nickname(), first.nickname());
    assert_ne!(original.kind(), first.kind());
    assert_ne!(original.token(), first.token());
    assert_ne!(original.uri(), first.uri());
    // save original and verify it updated back
    _ = memstore.save_api(&original);
    let apis = memstore.get_apis().unwrap();
    assert_eq!(1, apis.len());
    let first = apis.first().unwrap();
    assert!(first.equal(&original));
    // the same token and address replace the entry
    let results = memstore.save_api(&remote(0, "new-nickname", API_TYPE_CHRONOKEEP_REMOTE_SELF, original.token(), original.uri()));
    assert!(results.is_ok());
    assert_ne!(0, results.unwrap());
    let apis = memstore.get_apis().unwrap();
    assert_eq!(1, apis.len());
    let first = apis.first().unwrap();
    assert_ne!(original.nickname(), first.nickname());
    assert_ne!(original.kind(), first.kind());
    assert_eq!(original.token(), first.token());
    assert_eq!(original.uri(), first.uri());
    // an invalid type is refused
    let result = memstore.save_api(&remote(0, "invalid_type_name", "invalid-type", "random-token", "https:://invalid-type.com/"));
    assert!(result.is_err());
    match result {
        Ok(_) => panic!("Expected an error..."),
        Err(DBError::DataInsertionError(_)) => println!("Expected error found!"),
        Err(e) => panic!("Unexpected error found... {}", e.to_text()),
    }
}

#[test]
fn tests_test_get_apis() {
    let original = remote(0, "results-api", API_TYPE_CHRONOKEEP_REMOTE, "random-token-value", "https:://example.com/");
    let mut memstore = MemStore::new();
    _ = memstore.save_api(&original);
    let result = memstore.get_apis();
    assert!(result.is_ok());
    let apis = result.unwrap();
    let first = apis.first().unwrap();
    assert!(first.equal(&original));
    for i in 0..5 {
        _ = memstore.save_api(&remote(
            0,
            &format!("api-{i}"),
            API_TYPE_CHRONOKEEP_REMOTE,
            &format!("token-number-10302031{i}"),
            "https::api.chronokeep.com/",
        ));
    }
    let apis = memstore.get_apis().unwrap();
    assert_eq!(6, apis.len());
}

#[test]
fn tests_test_delete_api() {
    let original = remote(0, "results-api", API_TYPE_CHRONOKEEP_REMOTE, "random-token-value", "https:://example.com/");
    let mut memstore = MemStore::new();
    let orig_id = memstore.save_api(&original).unwrap_or(0);
    let apis = memstore.get_apis().unwrap();
    assert_eq!(1, apis.len());
    let result = memstore.delete_api(&orig_id);
    assert!(result.is_ok());
    assert_eq!(1, result.unwrap());
    let apis = memstore.get_apis().unwrap();
    assert_eq!(0, apis.len());
    let result = memstore.delete_api(&orig_id);
    assert!(result.is_ok());
    assert_eq!(0, result.unwrap());
    // verify that we only delete one from a list of apis
    let mut five_id: i64 = 0;
    for i in 0..10 {
        let tmp = memstore.save_api(&remote(
            0,
            &format!("results-api-{i}"),
            API_TYPE_CHRONOKEEP_REMOTE,
            &format!("random-token-value-{i}"),
            "https:://example.com/",
        ));
        if i == 5 {
            five_id = tmp.unwrap_or(-1);
        }
    }
    let apis = memstore.get_apis().unwrap();
    assert_eq!(10, apis.len());
    let result = memstore.delete_api(&five_id);
    assert!(result.is_ok());
    assert_eq!(1, result.unwrap());
    let apis = memstore.get_apis().unwrap();
    assert_eq!(9, apis.len());
}
