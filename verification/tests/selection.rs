use update_generator::selection::{has_extension, select_files, DirItem, Selection};

fn item(name: &str, is_file: bool) -> DirItem {
    DirItem { name: name.to_string(), is_file }
}

fn chars(s: &str) -> Vec<char> {
    s.chars().collect()
}

#[test]
fn extension_after_last_dot() {
    assert!(has_extension("a.sql", &chars("sql")));
    assert!(has_extension("a.b.sql", &chars("sql")));
    assert!(!has_extension("a.sql.bak", &chars("sql")));
    assert!(!has_extension("a.SQL", &chars("sql")));
}

#[test]
fn extension_needs_a_stem() {
    assert!(!has_extension(".sql", &chars("sql")));
    assert!(!has_extension("sql", &chars("sql")));
    assert!(has_extension("..sql", &chars("sql")));
}

#[test]
fn extension_may_be_empty() {
    assert!(has_extension("a.", &chars("")));
    assert!(!has_extension("a", &chars("")));
    assert!(!has_extension("..", &chars("")));
}

#[test]
fn extension_agrees_with_std_paths() {
    for name in ["a.sql", ".sql", "a.", "..", "a..sql", "x.class", "noext", ".hidden.class", "a.b.c"] {
        for ext in ["sql", "class", "", "c"] {
            let expected = std::path::Path::new(name).extension().and_then(|e| e.to_str()) == Some(ext);
            assert_eq!(has_extension(name, &chars(ext)), expected, "{:?} {:?}", name, ext);
        }
    }
}

#[test]
fn selection_sorts_by_extension_in_listing_order() {
    let items = vec![
        item("b.sql", true),
        item("A.class", true),
        item("notes.txt", true),
        item("a.sql", true),
        item("Z.class", true),
    ];
    let s = select_files(&items, &vec![]);
    assert_eq!(s.sql, vec!["b.sql".to_string(), "a.sql".to_string()]);
    assert_eq!(s.class, vec!["A.class".to_string(), "Z.class".to_string()]);
}

#[test]
fn selection_skips_excluded_entries_and_directories() {
    let items = vec![
        item("keep.sql", true),
        item("skip.sql", true),
        item("dir.sql", false),
        item("Skip.class", true),
    ];
    let s = select_files(&items, &vec!["skip.sql".to_string(), "Skip.class/".to_string()]);
    assert_eq!(s.sql, vec!["keep.sql".to_string()]);
    assert!(s.class.is_empty());
}

#[test]
fn selection_of_nothing_is_empty() {
    let items = vec![item("readme.md", true), item("sub", false)];
    let s = select_files(&items, &vec![]);
    assert!(s.is_empty());
    let t = Selection { sql: vec![], class: vec!["a.class".to_string()], sql_items: vec![], class_items: vec![0] };
    assert!(!t.is_empty());
}

#[test]
fn law_excluded_file_never_selected_concrete() {
    let items = vec![item("x.sql", true), item("x.class", true)];
    let s = select_files(&items, &vec!["x.sql".to_string(), "x.class".to_string()]);
    assert!(s.is_empty());
}

#[test]
fn law_scripts_and_classes_disjoint_concrete() {
    let items = vec![item("a.sql", true), item("a.class", true), item("a.sql", true)];
    let s = select_files(&items, &vec![]);
    for n in &s.sql {
        assert!(!s.class.contains(n));
    }
    assert_eq!(s.sql.len(), 2);
}

#[test]
fn selection_positions_point_at_the_listing() {
    let items = vec![item("x.txt", true), item("b.sql", true), item("A.class", true), item("a.sql", true)];
    let s = select_files(&items, &vec![]);
    assert_eq!(s.sql_items, vec![1, 3]);
    assert_eq!(s.class_items, vec![2]);
    for (k, &i) in s.sql_items.iter().enumerate() {
        assert_eq!(items[i].name, s.sql[k]);
    }
}
