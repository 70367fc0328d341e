use chrono::NaiveDate;
use indexfile::{BlobType, FileType, Id, IndexFile, IndexPack, IndexRecord};

fn id_of(byte: u8) -> Id {
    Id::new([byte; 32])
}

fn pack_of(byte: u8, lengths: &[u32]) -> IndexPack {
    let mut pack = IndexPack::default();
    let mut offset: u32 = 0;
    for (i, length) in lengths.iter().enumerate() {
        pack.add(id_of(byte + i as u8), BlobType::Data, offset, *length);
        offset += *length;
    }
    pack.set_id(id_of(byte));
    pack
}

fn pack_ids(packs: &[IndexPack]) -> Vec<Id> {
    packs.iter().map(|p| p.id).collect()
}

#[test]
fn index_file_kind_is_index() {
    assert_eq!(IndexFile::file_type(), FileType::Index);
}

#[test]
fn default_revision_is_empty() {
    let file = IndexFile::default();
    assert!(file.supersedes.is_none());
    assert!(file.packs.is_empty());
    assert!(file.packs_to_delete.is_empty());
}

#[test]
fn add_keeps_insertion_order() {
    let mut file = IndexFile::default();
    file.add(pack_of(200, &[5, 6]));
    file.add(pack_of(100, &[7]));
    assert_eq!(pack_ids(&file.packs), vec![id_of(200), id_of(100)]);
    assert_eq!(file.packs[0].blobs.len(), 2);
    assert_eq!(file.packs[1].blobs.len(), 1);
    assert_eq!(file.packs[1].blobs[0].length, 7);
    assert!(file.supersedes.is_none());
    assert!(file.packs_to_delete.is_empty());
}

#[test]
fn add_does_not_deduplicate() {
    let mut file = IndexFile::default();
    file.add(pack_of(9, &[1]));
    file.add(pack_of(9, &[1]));
    assert_eq!(pack_ids(&file.packs), vec![id_of(9), id_of(9)]);
}

#[test]
fn empty_revision_stores_packs_alone_and_reads_back_empty() {
    let record = IndexFile::default().into_record();
    assert!(record.supersedes.is_none());
    assert!(record.packs.is_empty());
    assert!(record.packs_to_delete.is_none());
    let file = IndexFile::from_record(record);
    assert!(file.supersedes.is_none());
    assert!(file.packs.is_empty());
    assert!(file.packs_to_delete.is_empty());
}

#[test]
fn stored_form_keeps_every_field_that_holds_something() {
    let time = NaiveDate::from_ymd_opt(2021, 12, 31).unwrap().and_hms_opt(23, 59, 58).unwrap();
    let mut timed = pack_of(40, &[3, 4]);
    timed.time = Some(time);
    let file = IndexFile {
        supersedes: Some(vec![id_of(1), id_of(2)]),
        packs: vec![pack_of(30, &[10]), timed],
        packs_to_delete: vec![pack_of(50, &[1, 2, 3])],
    };
    let record = file.into_record();
    assert_eq!(record.supersedes, Some(vec![id_of(1), id_of(2)]));
    assert_eq!(pack_ids(&record.packs), vec![id_of(30), id_of(40)]);
    assert_eq!(pack_ids(record.packs_to_delete.as_ref().unwrap()), vec![id_of(50)]);

    let back = IndexFile::from_record(record);
    assert_eq!(back.supersedes, Some(vec![id_of(1), id_of(2)]));
    assert_eq!(pack_ids(&back.packs), vec![id_of(30), id_of(40)]);
    assert_eq!(back.packs[0].time, None);
    assert_eq!(back.packs[1].time, Some(time));
    assert_eq!(back.packs[1].blobs.len(), 2);
    assert_eq!(back.packs[1].blobs[1].offset, 3);
    assert_eq!(back.packs[1].blobs[1].length, 4);
    assert_eq!(pack_ids(&back.packs_to_delete), vec![id_of(50)]);
    assert_eq!(back.packs_to_delete[0].blobs.len(), 3);
}

#[test]
fn absent_supersedes_and_empty_packs_to_delete_are_left_out() {
    let file = IndexFile {
        supersedes: None,
        packs: vec![pack_of(1, &[1])],
        packs_to_delete: Vec::new(),
    };
    let record = file.into_record();
    assert!(record.supersedes.is_none());
    assert!(record.packs_to_delete.is_none());
    assert_eq!(pack_ids(&record.packs), vec![id_of(1)]);
    let back = IndexFile::from_record(record);
    assert!(back.supersedes.is_none());
    assert!(back.packs_to_delete.is_empty());
    assert_eq!(pack_ids(&back.packs), vec![id_of(1)]);
}

#[test]
fn empty_supersedes_is_left_out() {
    let file = IndexFile { supersedes: Some(Vec::new()), packs: Vec::new(), packs_to_delete: Vec::new() };
    let record = file.into_record();
    assert!(record.supersedes.is_none());
    assert!(IndexFile::from_record(record).supersedes.is_none());
}

#[test]
fn from_record_takes_present_fields_as_they_stand() {
    let record = IndexRecord {
        supersedes: Some(Vec::new()),
        packs: vec![pack_of(3, &[9])],
        packs_to_delete: Some(Vec::new()),
    };
    let file = IndexFile::from_record(record);
    assert_eq!(file.supersedes, Some(Vec::new()));
    assert_eq!(pack_ids(&file.packs), vec![id_of(3)]);
    assert!(file.packs_to_delete.is_empty());
}

#[test]
fn revision_replaces_exactly_the_listed_revisions() {
    let a = id_of(0xA);
    let b = id_of(0xB);
    let c = id_of(0xC);
    let file = IndexFile { supersedes: Some(vec![a, b]), packs: Vec::new(), packs_to_delete: Vec::new() };
    assert!(file.replaces(&a));
    assert!(file.replaces(&b));
    assert!(!file.replaces(&c));

    let applied = vec![a, c, b];
    let kept: Vec<Id> = applied.into_iter().filter(|id| !file.replaces(id)).collect();
    assert_eq!(kept, vec![c]);
}

#[test]
fn revision_without_supersedes_replaces_nothing() {
    let file = IndexFile::default();
    assert!(!file.replaces(&id_of(0)));
    let file = IndexFile { supersedes: Some(Vec::new()), packs: Vec::new(), packs_to_delete: Vec::new() };
    assert!(!file.replaces(&id_of(0)));
}
