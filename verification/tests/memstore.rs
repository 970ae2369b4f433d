use portal::database::memstore::MemStore;
use portal::objects::read::{Read, READ_STATUS_USED, READ_STATUS_UNUSED, READ_STATUS_TOO_SOON, READ_UPLOADED_FALSE, READ_UPLOADED_TRUE};

fn make_reads() -> Vec<Read> {
    let mut output: Vec<Read> = Vec::new();
    output.push(Read::new(
        0,
        String::from("1005"),
        1005,
        100,
        1015,
        105,
        2,
        String::from("reader-1"),
        String::from("-25dba"),
        READ_STATUS_USED,
        READ_UPLOADED_TRUE,
    ));
    output.push(Read::new(
        0,
        String::from("1005"),
        11005,
        90,
        11010,
        95,
        4,
        String::from("reader-1"),
        String::from("-20dba"),
        READ_STATUS_TOO_SOON,
        READ_UPLOADED_FALSE,
    ));
    // this entry should be ignored on save
    output.push(Read::new(
        0,
        String::from("1005"),
        1005,
        100,
        1015,
        105,
        3,
        String::from("reader-1"),
        String::from("-5dba"),
        READ_STATUS_UNUSED,
        READ_UPLOADED_TRUE,
    ));
    for i in 1006..1100 {
        output.push(Read::new(
            0,
            format!("{i}"),
            i,
            100,
            i + 5,
            105,
            1,
            String::from("reader-1"),
            String::from("-25dba"),
            READ_STATUS_UNUSED,
            READ_UPLOADED_FALSE,
        ));
    }
    output
}

#[test]
fn tests_test_save_reads() {
    let new_reads = make_reads();
    let mut memstore = MemStore::new();
    let result = memstore.save_reads(&new_reads);
    assert!(result.is_ok());
    assert_eq!(new_reads.len() - 1, result.unwrap());
    // test if we can add a read we already know about, this should return 0
    let temp_read = new_reads.first().unwrap();
    let updated_read = Read::new(
        0,
        String::from(temp_read.chip()),
        temp_read.seconds(),
        temp_read.milliseconds(),
        temp_read.reader_seconds(),
        temp_read.reader_milliseconds(),
        500,
        String::from("new-reader-name"),
        String::from("15dba"),
        READ_STATUS_USED,
        READ_UPLOADED_FALSE,
    );
    let result = memstore.save_reads(&vec![updated_read]);
    assert!(result.is_ok());
    assert_eq!(0, result.unwrap());
    // test if we can add a status that we don't know about
    let updated_read = Read::new(
        0,
        String::from(temp_read.chip()),
        temp_read.seconds(),
        temp_read.milliseconds(),
        temp_read.reader_seconds(),
        temp_read.reader_milliseconds(),
        500,
        String::from("new-reader-name"),
        String::from("15dba"),
        255,
        READ_UPLOADED_FALSE,
    );
    let result = memstore.save_reads(&vec![updated_read]);
    assert!(result.is_err());
}

#[test]
fn tests_test_get_reads() {
    let new_reads = make_reads();
    let mut memstore = MemStore::new();
    _ = memstore.save_reads(&new_reads);
    let result = memstore.get_reads(0, 2000);
    assert!(result.is_ok());
    let reads = result.unwrap();
    assert_eq!(new_reads.len() - 2, reads.len());
    let mut count = 0;
    for outer in reads.iter() {
        let mut found = false;
        for inner in new_reads.iter() {
            if outer.equals(&inner) {
                found = true;
                break;
            }
        }
        if found {
            count = count + 1;
        }
        assert!(found)
    }
    assert_eq!(reads.len(), count);
}

#[test]
fn test_get_all_reads() {
    let new_reads = make_reads();
    let mut memstore = MemStore::new();
    _ = memstore.save_reads(&new_reads);
    let results = memstore.get_all_reads();
    assert!(results.is_ok());
    let reads = results.unwrap();
    // should be a duplicate read in new_reads
    assert_eq!(new_reads.len() - 1, reads.len());
    let mut count = 0;
    for outer in reads.iter() {
        let mut found = false;
        for inner in new_reads.iter() {
            if outer.equals(&inner) {
                found = true;
                break;
            }
        }
        if found {
            count = count + 1;
        }
        assert!(found)
    }
    assert_eq!(reads.len(), count);
}

#[test]
fn tests_test_delete_reads() {
    let new_reads = make_reads();
    let mut memstore = MemStore::new();
    let saved = memstore.save_reads(&new_reads).unwrap();
    let result = memstore.delete_reads(2000, 90000);
    assert!(result.is_ok());
    assert_eq!(1, result.unwrap());
    let reads = memstore.get_all_reads().unwrap();
    assert_eq!(saved - 1, reads.len());
    let result = memstore.delete_reads(0, 2000);
    assert!(result.is_ok());
    assert_eq!(saved - 1, result.unwrap());
    let reads = memstore.get_all_reads().unwrap();
    assert_eq!(0, reads.len());
    let result = memstore.delete_reads(0, 90000);
    assert!(result.is_ok());
    assert_eq!(0, result.unwrap());
}

#[test]
fn test_delete_all_reads() {
    let new_reads = make_reads();
    let mut memstore = MemStore::new();
    let saved = memstore.save_reads(&new_reads).unwrap();
    let result = memstore.delete_all_reads();
    assert!(result.is_ok());
    assert_eq!(saved, result.unwrap());
    let reads = memstore.get_all_reads().unwrap();
    assert_eq!(0, reads.len());
}

#[test]
fn test_reset_reads_upload() {
    let new_reads = make_reads();
    let mut memstore = MemStore::new();
    let saved = memstore.save_reads(&new_reads).unwrap();
    let not_uploaded = memstore.get_not_uploaded_reads().unwrap();
    assert_ne!(saved, not_uploaded.len());
    assert_ne!(0, not_uploaded.len());
    let result = memstore.reset_reads_upload();
    assert!(result.is_ok());
    let res_count = result.unwrap();
    assert_eq!(saved, res_count);
    let not_uploaded = memstore.get_not_uploaded_reads().unwrap();
    assert_eq!(saved, not_uploaded.len());
}

#[test]
fn test_get_not_uploaded_reads() {
    let new_reads = make_reads();
    let mut memstore = MemStore::new();
    memstore.save_reads(&new_reads).unwrap();
    let new_reads = memstore.get_all_reads().unwrap();
    let mut not_uploaded = 0;
    for read in new_reads.iter() {
        if read.uploaded() == READ_UPLOADED_FALSE {
            not_uploaded = not_uploaded + 1;
        }
    }
    let result = memstore.get_not_uploaded_reads();
    assert!(result.is_ok());
    let result = result.unwrap();
    assert_eq!(not_uploaded, result.len());
}

fn with_upload_mark(reads: &Vec<Read>, uploaded: u8) -> Vec<Read> {
    let mut updated_reads: Vec<Read> = Vec::new();
    for read in reads.iter() {
        updated_reads.push(Read::new(
            read.id(),
            String::from(read.chip()),
            read.seconds(),
            read.milliseconds(),
            read.reader_seconds(),
            read.reader_milliseconds(),
            read.antenna(),
            String::from(read.reader()),
            String::from(read.rssi()),
            read.status(),
            uploaded,
        ))
    }
    updated_reads
}

#[test]
fn test_update_reads_status() {
    let new_reads = make_reads();
    let mut memstore = MemStore::new();
    memstore.save_reads(&new_reads).unwrap();
    let new_reads = memstore.get_all_reads().unwrap();
    for mark in [READ_UPLOADED_FALSE, READ_UPLOADED_TRUE] {
        let updated_reads = with_upload_mark(&new_reads, mark);
        let updated = memstore.update_reads_status(&updated_reads);
        assert!(updated.is_ok());
        let updated = updated.unwrap();
        assert_eq!(updated_reads.len(), updated);
        let updated = memstore.get_all_reads().unwrap();
        for outer in updated_reads.iter() {
            let mut found = false;
            for inner in updated.iter() {
                if inner.equals(&outer) && inner.uploaded() == outer.uploaded() {
                    found = true;
                    break;
                }
            }
            assert!(found)
        }
    }
}

#[test]
fn update_reads_status_refuses_unknown_status() {
    let mut memstore = MemStore::new();
    memstore.save_reads(&make_reads()).unwrap();
    let all = memstore.get_all_reads().unwrap();
    let mut changes = with_upload_mark(&all, READ_UPLOADED_TRUE);
    changes[3].set_status(9);
    assert!(memstore.update_reads_status(&changes).is_err());
    assert_eq!(memstore.get_not_uploaded_reads().unwrap().len(), memstore.get_all_reads().unwrap().iter().filter(|r| r.uploaded() == READ_UPLOADED_FALSE).count());
    assert_eq!(memstore.get_all_reads().unwrap()[1].uploaded(), READ_UPLOADED_FALSE);
}

#[test]
fn reset_reads_status_and_useful_reads() {
    let mut memstore = MemStore::new();
    memstore.save_reads(&make_reads()).unwrap();
    let all = memstore.get_all_reads().unwrap();
    let too_soon = all.iter().filter(|r| r.status() == READ_STATUS_TOO_SOON).count();
    assert_eq!(too_soon, 1);
    assert_eq!(memstore.get_useful_reads().unwrap().len(), all.len() - 1);
    assert_eq!(memstore.reset_reads_status().unwrap(), all.len());
    assert!(memstore.get_all_reads().unwrap().iter().all(|r| r.status() == READ_STATUS_UNUSED));
    assert_eq!(memstore.get_useful_reads().unwrap().len(), all.len());
}

use portal::objects::setting::Setting;

#[test]
fn tests_test_setup() {
    let mut memstore = MemStore::new();
    let res = memstore.setup();
    match res {
        Ok(_) => println!("Everything went ok!"),
        Err(e) => {
            println!("Something went wrong! {}", e.to_text());
            panic!();
        },
    }
}

#[test]
fn tests_test_set_setting() {
    let setting_name = "RANDOM_SETTING";
    let setting_value = "random_value";
    let setting_updated_value = "new_random_value";
    let mut memstore = MemStore::new();
    let _ = memstore.setup();
    let num = memstore.set_setting(&Setting::new(String::from(setting_name), String::from(setting_value)));
    match num {
        Ok(setting) => {
            assert_eq!(setting_name, setting.Name());
            assert_eq!(setting_value, setting.Value());
        },
        Err(e) => {
            println!("Something went wrong! {}", e.to_text());
            panic!()
        },
    }
    // make sure updating doesn't cause an error
    let num = memstore.set_setting(&Setting::new(String::from(setting_name), String::from(setting_updated_value)));
    match num {
        Ok(setting) => {
            assert_eq!(setting_name, setting.Name());
            assert_eq!(setting_updated_value, setting.Value());
        },
        Err(e) => {
            println!("Something went wrong! {}", e.to_text());
            panic!()
        },
    }
}

#[test]
fn tests_test_get_setting() {
    let setting_name = "RANDOM_SETTING";
    let setting_value = "random_value";
    let setting_updated_value = "new_random_value";
    let mut memstore = MemStore::new();
    let _ = memstore.setup();
    assert!(memstore.set_setting(&Setting::new(String::from(setting_name), String::from(setting_value))).is_ok());
    let setting = memstore.get_setting(setting_name);
    match setting {
        Ok(setting) => {
            assert_eq!(setting_name, setting.Name());
            assert_eq!(setting_value, setting.Value());
        },
        Err(e) => {
            println!("Something went wrong! {}", e.to_text());
            panic!()
        },
    }
    // verify that the update function of set_setting works
    assert!(memstore.set_setting(&Setting::new(String::from(setting_name), String::from(setting_updated_value))).is_ok());
    let setting = memstore.get_setting(setting_name);
    match setting {
        Ok(setting) => {
            assert_eq!(setting_name, setting.Name());
            assert_eq!(setting_updated_value, setting.Value());
        },
        Err(e) => {
            println!("Something went wrong! {}", e.to_text());
            panic!()
        },
    }
}
