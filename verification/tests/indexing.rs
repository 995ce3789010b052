use witx::index::{hash_of, NameIndex};

fn index(names: &[&str]) -> NameIndex {
    NameIndex::new(names.iter().map(|n| n.to_string()).collect())
}

#[test]
fn hash_of_a_name_is_that_of_its_bytes() {
    assert_eq!(hash_of(""), 5381);
    assert_eq!(hash_of("a"), 166908);
    assert_eq!(hash_of("ab"), 5174246);
    assert_eq!(hash_of("é"), (((5381u64 * 31 + 0xc3) % 1_000_000_007) * 31 + 0xa9) % 1_000_000_007);
    assert!(hash_of("a rather long name that makes the hash wrap around its modulus") < 1_000_000_007);
}

#[test]
fn index_of_no_names_finds_nothing() {
    let empty = index(&[]);
    assert_eq!(empty.find("a"), None);
    assert_eq!(empty.find(""), None);
}

#[test]
fn index_finds_every_name_at_its_place() {
    let names = ["point", "line", "m.point", "", "shape", "m.line"];
    let all = index(&names);
    for (i, name) in names.iter().enumerate() {
        assert_eq!(all.find(name), Some(i));
    }
    assert_eq!(all.find("m"), None);
    assert_eq!(all.find("points"), None);
    assert_eq!(all.find("m.shape"), None);
}

#[test]
fn index_finds_the_first_of_equal_names() {
    let all = index(&["a", "b", "a", "c", "b", "a"]);
    assert_eq!(all.find("a"), Some(0));
    assert_eq!(all.find("b"), Some(1));
    assert_eq!(all.find("c"), Some(3));
}

#[test]
fn index_holds_many_names() {
    let names: Vec<String> = (0..1000).map(|i| format!("name{}", i * 7)).collect();
    let all = NameIndex::new(names.clone());
    for (i, name) in names.iter().enumerate() {
        assert_eq!(all.find(name), Some(i));
    }
    assert_eq!(all.find("name1"), None);
}

#[test]
fn index_finds_the_first_name_that_is_repeated() {
    assert_eq!(index(&[]).find_duplicate(), None);
    assert_eq!(index(&["a", "b", "c"]).find_duplicate(), None);
    assert_eq!(index(&["a", "b", "a", "b"]).find_duplicate(), Some((0, 2)));
    assert_eq!(index(&["a", "b", "c", "b", "a", "b"]).find_duplicate(), Some((1, 3)));
    assert_eq!(index(&["x", "x", "x"]).find_duplicate(), Some((0, 1)));
    let all = index(&["a", "b"]);
    assert_eq!(all.name_at(1), "b");
}
