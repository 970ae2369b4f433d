use portal::database::memstore::MemStore;
use portal::objects::bibchip::BibChip;
use portal::objects::participant::Participant;

fn person(bib: &str, first: &str, last: &str, age: u16, gender: &str, chip: &str, anonymous: bool) -> Participant {
    Participant::new(
        0,
        String::from(bib),
        String::from(first),
        String::from(last),
        age,
        String::from(gender),
        String::from("0-110"),
        String::from("50k"),
        String::from(chip),
        anonymous,
    )
}

fn make_participants() -> Vec<Participant> {
    vec![
        person("1005", "", "", 50, "F", "1005", true),
        person("1006", "John", "Smith", 22, "M", "1006", false),
        person("1007", "Jenny", "Appfelsauce", 34, "F", "1007", false),
        person("1008", "Jon", "Johnson", 20, "NB", "1008", false),
        person("1009", "George", "Analabousch", 65, "U", "1009", false),
    ]
}

#[test]
fn test_add_participants() {
    let participants = make_participants();
    let mut store = MemStore::new();
    let result = store.add_participants(&participants);
    assert!(result.is_ok());
    assert_eq!(participants.len(), result.unwrap());
    let parts = store.get_participants().unwrap();
    for outer in participants.iter() {
        let mut found = false;
        for inner in parts.iter() {
            if outer.equals(&inner) {
                found = true;
            }
        }
        assert!(found)
    }
    // test update / bib & chip collisions
    let new_part = vec![Participant::new(
        0,
        String::from("1009"),
        String::from("Updated First"),
        String::from("Updated Last"),
        3,
        String::from("M"),
        String::from("0-110"),
        String::from("50k"),
        String::from("1006"),
        false,
    )];
    let result = store.add_participants(&new_part);
    assert!(result.is_ok());
    assert_eq!(1, result.unwrap());
    let parts = store.get_participants().unwrap();
    // this should have replaced two entries, bib 1009 and chip 1006
    assert_eq!(participants.len() - 1, parts.len());
    let mut found = false;
    let np = new_part.first().unwrap();
    for p in parts {
        if np.equals(&p) {
            found = true;
            break;
        }
    }
    assert!(found);
}

#[test]
fn test_delete_participants() {
    let participants = make_participants();
    let mut store = MemStore::new();
    _ = store.add_participants(&participants);
    let parts = store.get_participants().unwrap();
    assert_eq!(participants.len(), parts.len());
    let result = store.delete_participants();
    assert!(result.is_ok());
    assert_eq!(participants.len(), result.unwrap());
    let parts = store.get_participants().unwrap();
    assert_eq!(0, parts.len());
}

#[test]
fn test_delete_participant() {
    let participants = make_participants();
    let mut store = MemStore::new();
    _ = store.add_participants(&participants);
    let parts = store.get_participants().unwrap();
    assert_eq!(participants.len(), parts.len());
    // delete known bib
    let result = store.delete_participant("1009");
    assert!(result.is_ok());
    assert_eq!(1, result.unwrap());
    let parts = store.get_participants().unwrap();
    assert_eq!(participants.len() - 1, parts.len());
    // try to delete again
    let result = store.delete_participant("1009");
    assert!(result.is_ok());
    assert_eq!(0, result.unwrap());
    let parts = store.get_participants().unwrap();
    assert_eq!(participants.len() - 1, parts.len());
    // test unknown bib
    let result = store.delete_participant("invalid");
    assert!(result.is_ok());
    assert_eq!(0, result.unwrap());
    let parts = store.get_participants().unwrap();
    assert_eq!(participants.len() - 1, parts.len());
}

#[test]
fn participant_ids_count_up() {
    let mut store = MemStore::new();
    store.add_participants(&make_participants()).unwrap();
    let ids: Vec<u64> = store.get_participants().unwrap().iter().map(|p| p.id()).collect();
    assert_eq!(ids, vec![1, 2, 3, 4, 5]);
    store.add_participants(&vec![person("2000", "A", "B", 1, "F", "2000", false)]).unwrap();
    assert_eq!(store.get_participants().unwrap().last().unwrap().id(), 6);
}

#[test]
fn bib_links_replace_by_chip() {
    let mut store = MemStore::new();
    let links = vec![
        BibChip::new(String::from("1"), String::from("a")),
        BibChip::new(String::from("2"), String::from("b")),
        BibChip::new(String::from("3"), String::from("a")),
    ];
    assert_eq!(store.add_bibchips(&links).unwrap(), 3);
    let kept = store.get_bibchips().unwrap();
    assert_eq!(kept.len(), 2);
    assert!(kept[0].equals(&BibChip::new(String::from("2"), String::from("b"))));
    assert!(kept[1].equals(&BibChip::new(String::from("3"), String::from("a"))));
    assert_eq!(store.delete_bibchips("3").unwrap(), 1);
    assert_eq!(store.delete_bibchips("3").unwrap(), 0);
    assert_eq!(store.delete_all_bibchips().unwrap(), 1);
    assert_eq!(store.get_bibchips().unwrap().len(), 0);
}

#[test]
fn deleting_a_participant_drops_its_links() {
    let mut store = MemStore::new();
    store.add_participants(&make_participants()).unwrap();
    store
        .add_bibchips(&vec![
            BibChip::new(String::from("1005"), String::from("x")),
            BibChip::new(String::from("1006"), String::from("y")),
        ])
        .unwrap();
    assert_eq!(store.delete_participant("1005").unwrap(), 1);
    let links = store.get_bibchips().unwrap();
    assert_eq!(links.len(), 1);
    assert_eq!(links[0].bib(), "1006");
    assert_eq!(store.delete_participants().unwrap(), 4);
    assert_eq!(store.get_bibchips().unwrap().len(), 0);
}

use portal::objects::read::{Read, READ_STATUS_UNUSED, READ_STATUS_USED, READ_UPLOADED_FALSE};
use portal::objects::sighting::Sighting;

fn make_sightings(store: &mut MemStore) -> Vec<Sighting> {
    // store all participants
    let parts = make_participants();
    _ = store.add_participants(&parts);
    // get all the participants so ids are up to date
    let parts = store.get_participants().unwrap();
    // five reads per person
    let mut reads: Vec<Read> = Vec::new();
    for p in parts.iter() {
        let vals: [u32; 5] = [0, 1, 2, 3, 4];
        for i in vals {
            reads.push(Read::new(
                0,
                String::from(p.chip()),
                u64::from(1000 + (i * 30 * 60)),
                10 * i,
                u64::from(1000 + (i * 30 * 60)),
                10 * i,
                i,
                String::from("reader-1"),
                String::from("-25dba"),
                READ_STATUS_USED,
                READ_UPLOADED_FALSE,
            ));
        }
    }
    _ = store.save_reads(&reads);
    // all reads are between 1000 and 9000 seconds
    let reads = store.get_reads(0, 20000).unwrap();
    let mut output: Vec<Sighting> = Vec::new();
    for part in parts.iter() {
        for r in reads.iter().filter(|r| r.chip() == part.chip()) {
            output.push(Sighting { participant: part.clone(), read: r.clone() });
        }
    }
    output
}

#[test]
fn test_save_sightings() {
    let mut store = MemStore::new();
    let sightings = make_sightings(&mut store);
    let result = store.save_sightings(&sightings);
    assert!(result.is_ok());
    assert_eq!(sightings.len(), result.unwrap());
    // a sighting of a read and participant not stored is refused
    let sightings = vec![Sighting {
        participant: Participant::new(
            0,
            String::from("100"),
            String::from("John"),
            String::from("Smith"),
            10,
            String::from("M"),
            String::from("0-110"),
            String::from("Half Marathon"),
            String::from("202201001"),
            false,
        ),
        read: Read::new(
            0,
            String::from("202201001"),
            100,
            100,
            100,
            100,
            1,
            String::from("reader-1"),
            String::from("-20dba"),
            0,
            0,
        ),
    }];
    let result = store.save_sightings(&sightings);
    assert!(result.is_err());
}

#[test]
fn test_get_sightings() {
    let mut store = MemStore::new();
    let sightings = make_sightings(&mut store);
    _ = store.save_sightings(&sightings);
    let result = store.get_all_sightings();
    assert!(result.is_ok());
    let res_sights = result.unwrap();
    assert_eq!(sightings.len(), res_sights.len());
    for s in res_sights.iter() {
        assert!(sightings.iter().any(|t| t.equals(s)));
    }
}

#[test]
fn test_delete_sightings() {
    let mut store = MemStore::new();
    let sightings = make_sightings(&mut store);
    _ = store.save_sightings(&sightings);
    let sights = store.get_all_sightings().unwrap();
    assert_eq!(sightings.len(), sights.len());
    let result = store.delete_sightings();
    assert!(result.is_ok());
    assert_eq!(sightings.len(), result.unwrap());
    let sights = store.get_all_sightings().unwrap();
    assert_eq!(0, sights.len());
    assert!(store.get_all_reads().unwrap().iter().all(|r| r.status() == READ_STATUS_UNUSED));
}

#[test]
fn sightings_in_a_window_and_twice_saved() {
    let mut store = MemStore::new();
    let sightings = make_sightings(&mut store);
    assert_eq!(store.save_sightings(&sightings).unwrap(), sightings.len());
    // saving the same pairs again adds nothing
    assert_eq!(store.save_sightings(&sightings).unwrap(), 0);
    // reads at 1000 and 2800 seconds, one each per participant
    let early = store.get_sightings(0, 3000).unwrap();
    assert_eq!(early.len(), 10);
    assert!(early.iter().all(|s| s.read.seconds() <= 3000));
}

#[test]
fn deleting_reads_or_participants_drops_their_sightings() {
    let mut store = MemStore::new();
    let sightings = make_sightings(&mut store);
    store.save_sightings(&sightings).unwrap();
    // the first read of each participant is at 1000 seconds
    assert_eq!(store.delete_reads(1000, 1000).unwrap(), 5);
    assert_eq!(store.get_all_sightings().unwrap().len(), 20);
    assert_eq!(store.delete_participant("1005").unwrap(), 1);
    assert_eq!(store.get_all_sightings().unwrap().len(), 16);
    // a participant that takes another's chip replaces it, and its sightings go
    store.add_participants(&vec![person("3000", "New", "Person", 40, "F", "1006", false)]).unwrap();
    assert_eq!(store.get_all_sightings().unwrap().len(), 12);
    assert_eq!(store.delete_all_reads().unwrap(), 20);
    assert_eq!(store.get_all_sightings().unwrap().len(), 0);
}
