use glyphana::index::{CharacterIndex, CharacterRecord};

#[test]
fn a_new_index_is_empty() {
    let index = CharacterIndex::new();
    assert_eq!(index.len(), 0);
    assert!(index.is_empty());
    assert!(index.all().is_empty());
    assert_eq!(index.get(&'A'), None);
    assert!(!index.contains_key(&'A'));
}

#[test]
fn insert_keeps_the_records_ascending() {
    let mut index = CharacterIndex::new();
    assert_eq!(index.insert('m', "Em".to_string()), None);
    assert_eq!(index.insert('a', "A".to_string()), None);
    assert_eq!(index.insert('z', "Zed".to_string()), None);
    assert_eq!(index.insert('😀', "Grinning Face".to_string()), None);
    assert_eq!(index.insert('b', "Bee".to_string()), None);

    let codepoints: Vec<char> = index.all().iter().map(|record| record.codepoint).collect();
    assert_eq!(codepoints, vec!['a', 'b', 'm', 'z', '😀']);
    assert_eq!(index.len(), 5);
    assert!(!index.is_empty());
}

#[test]
fn insert_replaces_the_name_of_a_known_codepoint() {
    let mut index = CharacterIndex::new();
    index.insert('a', "first".to_string());
    index.insert('b', "bee".to_string());
    assert_eq!(index.insert('a', "second".to_string()), Some("first".to_string()));
    assert_eq!(index.len(), 2);
    assert_eq!(index.get(&'a'), Some(&"second".to_string()));
    assert_eq!(index.get(&'b'), Some(&"bee".to_string()));
}

#[test]
fn get_finds_every_record_and_nothing_else() {
    let mut index = CharacterIndex::new();
    let chars = ['q', 'c', 'x', 'a', 'k', 'e', 'z', 'm'];
    for c in chars {
        index.insert(c, format!("name of {c}"));
    }
    for c in chars {
        assert_eq!(index.get(&c), Some(&format!("name of {c}")));
        assert!(index.contains_key(&c));
    }
    for c in ['b', 'd', 'y', '0', '~', 'é'] {
        assert_eq!(index.get(&c), None);
        assert!(!index.contains_key(&c));
    }
}

#[test]
fn clone_and_to_vec_copy_every_record() {
    let mut index = CharacterIndex::new();
    index.insert('b', "bee".to_string());
    index.insert('a', "ay".to_string());
    let copy = index.clone();
    assert_eq!(copy, index);
    assert_eq!(
        index.to_vec(),
        vec![
            CharacterRecord { codepoint: 'a', name: "ay".to_string() },
            CharacterRecord { codepoint: 'b', name: "bee".to_string() },
        ]
    );
}

#[test]
fn from_ascending_takes_ordered_records() {
    let records = vec![
        CharacterRecord { codepoint: '1', name: "one".to_string() },
        CharacterRecord { codepoint: '2', name: "two".to_string() },
    ];
    let index = CharacterIndex::from_ascending(records.clone());
    assert_eq!(index.all(), &records);
    assert_eq!(index.get(&'2'), Some(&"two".to_string()));
}
