use typst_tpl::store::{FileEntry, FileError, Source, VirtualFileStore};
use typst_tpl::world::{Font, TypstWorld};

#[test]
fn missing_file_is_not_found() {
    let mut store = VirtualFileStore::new();
    assert_eq!(store.get_source(7), Err(FileError::NotFound(7)));
    assert_eq!(store.get_bytes(7), Err(FileError::NotFound(7)));
}

#[test]
fn loaded_bytes_come_back_unparsed() {
    let mut store = VirtualFileStore::new();
    let entry = store.load_bytes(1, b"hello".to_vec());
    assert_eq!(entry.bytes, b"hello".to_vec());
    assert!(entry.source.is_none());
    assert_eq!(store.get_bytes(1), Ok(&b"hello".to_vec()));
    assert!(!store.is_parsed(1));
}

#[test]
fn get_source_decodes_utf8_text() {
    let mut store = VirtualFileStore::new();
    store.load_bytes(1, "salut".as_bytes().to_vec());
    let src = store.get_source(1).unwrap();
    assert_eq!(src.id, 1);
    assert_eq!(src.text, "salut".to_string());
}

#[test]
fn get_source_strips_leading_bom() {
    let mut store = VirtualFileStore::new();
    let mut bytes = vec![0xEF, 0xBB, 0xBF];
    bytes.extend_from_slice("hello".as_bytes());
    store.load_bytes(9, bytes);
    let src = store.get_source(9).unwrap();
    assert_eq!(src.text, "hello".to_string());
}

#[test]
fn get_source_strips_repeated_boms() {
    let mut store = VirtualFileStore::new();
    let mut bytes = vec![0xEF, 0xBB, 0xBF, 0xEF, 0xBB, 0xBF];
    bytes.extend_from_slice("x".as_bytes());
    store.load_bytes(2, bytes);
    assert_eq!(store.get_source(2).unwrap().text, "x".to_string());
}

#[test]
fn invalid_utf8_is_reported_with_the_id() {
    let mut store = VirtualFileStore::new();
    store.load_bytes(3, vec![0xFF, 0xFE, 0x01]);
    assert_eq!(store.get_source(3), Err(FileError::InvalidUtf8(3)));
    assert!(!store.is_parsed(3));
}

#[test]
fn get_source_is_parsed_once_and_idempotent() {
    let mut store = VirtualFileStore::new();
    store.load_bytes(4, "only once".as_bytes().to_vec());
    assert!(!store.is_parsed(4));
    let first = store.get_source(4).unwrap();
    assert!(store.is_parsed(4));
    let second = store.get_source(4).unwrap();
    assert_eq!(first, second);
    assert!(store.is_parsed(4));
}

#[test]
fn file_entry_source_counts_one_parse() {
    // A test double around the entry itself: a populated cache means the
    // parse already happened; the second call must not re-derive it.
    let mut entry = FileEntry::new("abc".as_bytes().to_vec(), None);
    let first = entry.source(5).unwrap();
    let cached = entry.source.clone().unwrap();
    assert_eq!(first, cached);
    let second = entry.source(5).unwrap();
    assert_eq!(first, second);
    assert_eq!(entry.source.unwrap(), first);
}

#[test]
fn overwriting_bytes_clears_the_parse() {
    let mut store = VirtualFileStore::new();
    store.load_bytes(6, "old".as_bytes().to_vec());
    assert_eq!(store.get_source(6).unwrap().text, "old".to_string());
    store.load_bytes(6, "new".as_bytes().to_vec());
    assert!(!store.is_parsed(6));
    assert_eq!(store.get_source(6).unwrap().text, "new".to_string());
}

#[test]
fn stores_track_identifiers_independently() {
    let mut store = VirtualFileStore::new();
    store.load_bytes(1, "one".as_bytes().to_vec());
    store.load_bytes(2, "two".as_bytes().to_vec());
    assert_eq!(store.get_source(2).unwrap().text, "two".to_string());
    assert_eq!(store.get_source(1).unwrap().text, "one".to_string());
    assert!(store.is_parsed(1) && store.is_parsed(2));
}

#[test]
fn world_exposes_pinned_library_fonts_and_source() {
    let store = VirtualFileStore::new();
    let main = Source { id: 0, text: "= Title".to_string() };
    let fonts = vec![Font { data: vec![1, 2, 3], index: 0 }];
    let world = TypstWorld::new(
        main,
        vec![9, 9],
        vec!["Serif".to_string()],
        fonts,
        store,
    );
    assert_eq!(world.main_source().text, "= Title".to_string());
    assert_eq!(world.library(), &vec![9, 9]);
    assert_eq!(world.book(), &vec!["Serif".to_string()]);
    assert_eq!(world.fonts().len(), 1);
    assert_eq!(world.font(0).unwrap().data, vec![1, 2, 3]);
    assert!(world.font(1).is_none());
}

#[test]
fn world_resolves_files_through_its_store() {
    let store = VirtualFileStore::new();
    let main = Source { id: 0, text: String::new() };
    let mut world = TypstWorld::new(main, vec![], vec![], vec![], store);
    assert_eq!(world.file(11), Err(FileError::NotFound(11)));
    world.load_file(11, "include".as_bytes().to_vec());
    assert_eq!(world.file(11), Ok(&"include".as_bytes().to_vec()));
    assert_eq!(world.source(11).unwrap().text, "include".to_string());
    // The pinned parts are unchanged after file activity.
    assert_eq!(world.library(), &Vec::<u8>::new());
    assert_eq!(world.main_source().id, 0);
}
