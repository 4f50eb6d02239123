use craftmine::block::Block;
use craftmine::index::Index;

#[test]
fn insert_update_remove_sequence() {
    let mut index: Index<Block> = Index::new();
    index.on_create_or_update(1, Block(String::from("stone")));
    assert_eq!(index.get(&Block(String::from("stone"))), Some(1));

    index.on_create_or_update(1, Block(String::from("dirt")));
    assert_eq!(index.get(&Block(String::from("stone"))), None);
    assert_eq!(index.get(&Block(String::from("dirt"))), Some(1));

    index.on_remove(1);
    assert_eq!(index.get(&Block(String::from("dirt"))), None);
}

#[test]
fn value_moves_between_records() {
    let mut index: Index<Block> = Index::new();
    index.on_create_or_update(1, Block(String::from("stone")));
    index.on_create_or_update(2, Block(String::from("stone")));
    assert_eq!(index.get(&Block(String::from("stone"))), Some(2));
    index.on_remove(2);
    assert_eq!(index.get(&Block(String::from("stone"))), None);
}

#[test]
fn distinct_records_coexist() {
    let mut index: Index<Block> = Index::new();
    index.on_create_or_update(1, Block(String::from("stone")));
    index.on_create_or_update(2, Block(String::from("dirt")));
    assert_eq!(index.get(&Block(String::from("stone"))), Some(1));
    assert_eq!(index.get(&Block(String::from("dirt"))), Some(2));
    index.on_remove(1);
    assert_eq!(index.get(&Block(String::from("stone"))), None);
    assert_eq!(index.get(&Block(String::from("dirt"))), Some(2));
}

#[test]
fn remove_of_absent_record_changes_nothing() {
    let mut index: Index<Block> = Index::new();
    index.on_create_or_update(1, Block(String::from("stone")));
    index.on_remove(9);
    assert_eq!(index.get(&Block(String::from("stone"))), Some(1));
}

#[test]
fn scan_initializes_with_later_records_winning() {
    let records = vec![
        (1, Block(String::from("stone"))),
        (2, Block(String::from("dirt"))),
        (3, Block(String::from("stone"))),
    ];
    let index = Index::from_records(records);
    assert_eq!(index.get(&Block(String::from("stone"))), Some(3));
    assert_eq!(index.get(&Block(String::from("dirt"))), Some(2));
}

#[test]
fn empty_index_finds_nothing() {
    let index: Index<Block> = Index::new();
    assert_eq!(index.get(&Block(String::from("anything"))), None);
}
