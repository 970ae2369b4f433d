use portal::database::memstore::MemStore;
use portal::database::DBError;
use portal::objects::read::{Read, READ_STATUS_USED, READ_STATUS_UNUSED, READ_STATUS_TOO_SOON, READ_UPLOADED_FALSE};
use portal::objects::setting::Setting;
use portal::control::socket::get_settings;
use portal::control::{SETTING_CHIP_TYPE, SETTING_PORTAL_NAME, SETTING_ENABLE_NTFY, SETTING_READ_WINDOW};

fn make_reads() -> Vec<Read> {
    let mut output: Vec<Read> = Vec::new();
    output.push(Read::new(
        0,
        String::from("1005"),
        1005,
        100,
        1005,
        100,
        2,
        String::from("reader-1"),
        String::from("-25dba"),
        READ_STATUS_USED,
        READ_UPLOADED_FALSE,
    ));
    output.push(Read::new(
        0,
        String::from("1005"),
        11005,
        90,
        11005,
        90,
        4,
        String::from("reader-1"),
        String::from("-20dba"),
        READ_STATUS_TOO_SOON,
        READ_UPLOADED_FALSE,
    ));
    // this entry should be ignored on save
    output.push(Read::new(
        0,
        String::from("1005"),
        1005,
        100,
        1005,
        100,
        3,
        String::from("reader-1"),
        String::from("-5dba"),
        READ_STATUS_UNUSED,
        READ_UPLOADED_FALSE,
    ));
    for i in 1006..1100 {
        output.push(Read::new(
            0,
            format!("{i}"),
            i,
            100,
            i,
            100,
            1,
            String::from("reader-1"),
            String::from("-25dba"),
            READ_STATUS_UNUSED,
            READ_UPLOADED_FALSE,
        ));
    }
    output
}

#[test]
fn test_save_reads() {
    let new_reads = make_reads();
    let mut sqlite = MemStore::new();
    let result = sqlite.save_reads(&new_reads);
    assert!(result.is_ok());
    assert_eq!(new_reads.len() - 1, result.unwrap());
    // test if we can add a read we already know about, this should return 0
    let temp_read = new_reads.first().unwrap();
    let updated_read = Read::new(
        0,
        String::from(temp_read.chip()),
        temp_read.seconds(),
        temp_read.milliseconds(),
        temp_read.seconds(),
        temp_read.milliseconds(),
        500,
        String::from("new-reader-name"),
        String::from("15dba"),
        READ_STATUS_USED,
        READ_UPLOADED_FALSE,
    );
    let result = sqlite.save_reads(&vec![updated_read]);
    assert!(result.is_ok());
    assert_eq!(0, result.unwrap());
    // test if we can add a status that we don't know about
    let updated_read = Read::new(
        0,
        String::from(temp_read.chip()),
        temp_read.seconds(),
        temp_read.milliseconds(),
        temp_read.seconds(),
        temp_read.milliseconds(),
        500,
        String::from("new-reader-name"),
        String::from("15dba"),
        255,
        READ_UPLOADED_FALSE,
    );
    let result = sqlite.save_reads(&vec![updated_read]);
    assert!(result.is_err());
}

#[test]
fn test_get_reads() {
    let new_reads = make_reads();
    let mut sqlite = MemStore::new();
    _ = sqlite.save_reads(&new_reads);
    let result = sqlite.get_reads(0, 2000);
    assert!(result.is_ok());
    let reads = result.unwrap();
    assert_eq!(new_reads.len() - 2, reads.len());
    for outer in reads.iter() {
        let mut found = false;
        for inner in new_reads.iter() {
            if outer.equals(&inner) {
                found = true
            }
        }
        assert!(found)
    }
}

#[test]
fn test_delete_reads() {
    let new_reads = make_reads();
    let mut sqlite = MemStore::new();
    let count = sqlite.save_reads(&new_reads).unwrap();
    let result = sqlite.delete_reads(2000, 90000);
    assert!(result.is_ok());
    assert_eq!(1, result.unwrap());
    let reads = sqlite.get_reads(0, 90000).unwrap();
    assert_eq!(count - 1, reads.len());
    let result = sqlite.delete_reads(0, 2000);
    assert!(result.is_ok());
    assert_eq!(count - 1, result.unwrap());
    let reads = sqlite.get_reads(0, 90000).unwrap();
    assert_eq!(0, reads.len());
    let result = sqlite.delete_reads(0, 90000);
    assert!(result.is_ok());
    assert_eq!(0, result.unwrap());
}

#[test]
fn saving_twice_adds_nothing_the_second_time() {
    let reads = make_reads();
    let mut store = MemStore::new();
    let first = store.save_reads(&reads).unwrap();
    let second = store.save_reads(&reads).unwrap();
    assert_eq!(96, first);
    assert_eq!(0, second);
    assert_eq!(96, store.get_all_reads().unwrap().len());
}

#[test]
fn saved_reads_get_increasing_ids_and_keep_their_fields() {
    let reads = make_reads();
    let mut store = MemStore::new();
    store.save_reads(&reads).unwrap();
    let all = store.get_all_reads().unwrap();
    assert_eq!(1, all[0].id());
    assert_eq!(2, all[1].id());
    // the duplicate third read is skipped, so the fourth read gets id 3
    assert_eq!(3, all[2].id());
    assert_eq!("1006", all[2].chip());
    assert_eq!(11005, all[1].seconds());
    assert_eq!(READ_STATUS_TOO_SOON, all[1].status());
}

#[test]
fn an_unknown_status_saves_nothing() {
    let mut reads = make_reads();
    reads[50].set_status(3);
    let mut store = MemStore::new();
    match store.save_reads(&reads) {
        Err(DBError::DataInsertionError(m)) => assert_eq!("invalid chip read status", m),
        _ => panic!("expected an insertion error"),
    }
    assert_eq!(0, store.get_all_reads().unwrap().len());
}

#[test]
fn get_reads_bounds_are_inclusive() {
    let reads = make_reads();
    let mut store = MemStore::new();
    store.save_reads(&reads).unwrap();
    let got = store.get_reads(1006, 1008).unwrap();
    assert_eq!(3, got.len());
    assert_eq!("1006", got[0].chip());
    assert_eq!("1008", got[2].chip());
    assert_eq!(0, store.get_reads(-5, -1).unwrap().len());
    assert_eq!(0, store.get_reads(2000, 1000).unwrap().len());
}

#[test]
fn a_setting_reads_back_what_was_written() {
    let mut store = MemStore::new();
    assert!(matches!(store.get_setting(SETTING_CHIP_TYPE), Err(DBError::NotFound)));
    store.set_setting(&Setting::new(String::from(SETTING_CHIP_TYPE), String::from("HEX"))).unwrap();
    store.set_setting(&Setting::new(String::from(SETTING_CHIP_TYPE), String::from("DEC"))).unwrap();
    let s = store.get_setting(SETTING_CHIP_TYPE).unwrap();
    assert_eq!(SETTING_CHIP_TYPE, s.Name().as_str());
    assert_eq!("DEC", s.Value().as_str());
}

#[test]
fn get_settings_lists_stored_client_settings_in_order() {
    let mut store = MemStore::new();
    store.set_setting(&Setting::new(String::from(SETTING_READ_WINDOW), String::from("20"))).unwrap();
    store.set_setting(&Setting::new(String::from(SETTING_PORTAL_NAME), String::from("Finish"))).unwrap();
    store.set_setting(&Setting::new(String::from(SETTING_ENABLE_NTFY), String::from("true"))).unwrap();
    store.set_setting(&Setting::new(String::from(SETTING_CHIP_TYPE), String::from("DEC"))).unwrap();
    let list = get_settings(&store);
    // SETTING_ENABLE_NTFY is not among the settings a client is shown
    assert_eq!(3, list.len());
    assert_eq!(SETTING_CHIP_TYPE, list[0].Name().as_str());
    assert_eq!(SETTING_PORTAL_NAME, list[1].Name().as_str());
    assert_eq!("Finish", list[1].Value().as_str());
    assert_eq!(SETTING_READ_WINDOW, list[2].Name().as_str());
}

#[test]
fn db_error_text() {
    assert_eq!("Data Not Found", DBError::NotFound.to_text());
    assert_eq!(
        "Error Inserting Data: invalid chip read status",
        DBError::DataInsertionError(String::from("invalid chip read status")).to_text()
    );
    assert_eq!("Connection Error: x", DBError::ConnectionError(String::from("x")).to_text());
}
