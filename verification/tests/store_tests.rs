use snippetstore::listing::Entry;
use snippetstore::store::Store;

fn file(name: &str, content: &str) -> Entry {
    Entry { name: name.to_string(), content: content.to_string(), is_dir: false }
}

fn dir(name: &str) -> Entry {
    Entry { name: name.to_string(), content: String::new(), is_dir: true }
}

#[test]
fn round_trip() {
    let mut st = Store::new();
    assert!(st.create("foo.txt", "hello").is_ok());
    assert_eq!(st.read("foo.txt").unwrap(), "hello");
}

#[test]
fn round_trip_other_values() {
    let mut st = Store::new();
    assert!(st.create("notes", "first line\nsecond line\n").is_ok());
    assert!(st.create("x", "").is_ok());
    assert_eq!(st.read("notes").unwrap(), "first line\nsecond line\n");
    assert_eq!(st.read("x").unwrap(), "");
}

#[test]
fn overwrite_takes_last_content() {
    let mut st = Store::new();
    assert!(st.create("n", "c1").is_ok());
    assert!(st.create("n", "c2").is_ok());
    assert_eq!(st.read("n").unwrap(), "c2");
}

#[test]
fn missing_snippet_is_io_error() {
    let mut st = Store::new();
    let r = st.read("absent");
    assert!(r.is_err());
    assert!(r.err().unwrap().is_io());
}

#[test]
fn create_with_empty_name_fails() {
    let mut st = Store::new();
    let r = st.create("", "text");
    assert!(r.is_err());
    assert!(r.err().unwrap().is_io());
}

#[test]
fn create_over_subdirectory_fails() {
    let snapshot = vec![dir("d"), file("a", "one")];
    let mut st = Store::from_snapshot(snapshot).unwrap();
    let r = st.create("d", "text");
    assert!(r.is_err());
    assert!(r.err().unwrap().is_io());
    // the collision changed nothing
    assert_eq!(st.read("a").unwrap(), "one");
    assert!(st.read("d").is_err());
}

#[test]
fn initialize_twice_succeeds_and_changes_nothing_more() {
    let mut st = Store::new();
    st.initialize();
    assert!(st.create("a", "kept").is_ok());
    st.initialize();
    // the second initialization left the single entry as it was
    assert_eq!(st.read("a").unwrap(), "kept");
    assert_eq!(st.list(), vec!["0: a".to_string()]);
}

#[test]
fn guidance_is_owed_exactly_once() {
    let mut st = Store::new();
    // the directory is missing: the first operation triggers creation
    assert!(st.ensure_present());
    // afterwards it exists: no further guidance
    assert!(!st.ensure_present());
    assert!(!st.ensure_present());
}

#[test]
fn initialized_store_owes_no_guidance() {
    let mut st = Store::new();
    st.initialize();
    assert!(!st.ensure_present());
}

#[test]
fn listing_excludes_directories() {
    let snapshot = vec![file("a", "1"), file("b", "2"), dir("d")];
    let mut st = Store::from_snapshot(snapshot).unwrap();
    let lines = st.list();
    assert_eq!(lines, vec!["0: a".to_string(), "1: b".to_string()]);
    for line in &lines {
        assert!(!line.ends_with(": d"));
    }
}

#[test]
fn listing_keeps_raw_enumeration_indices() {
    // the index counts every entry, skipped subdirectories included
    let snapshot = vec![file("a", "1"), dir("d"), file("b", "2")];
    let mut st = Store::from_snapshot(snapshot).unwrap();
    assert_eq!(st.list(), vec!["0: a".to_string(), "2: b".to_string()]);
}

#[test]
fn listing_of_empty_store_is_empty() {
    let mut st = Store::new();
    assert!(st.list().is_empty());
}

#[test]
fn snapshot_with_duplicate_names_is_rejected() {
    let r = Store::from_snapshot(vec![file("a", "1"), file("a", "2")]);
    assert!(r.is_err());
    assert!(r.err().unwrap().is_io());
}

#[test]
fn snapshot_with_empty_name_is_rejected() {
    let r = Store::from_snapshot(vec![file("", "1")]);
    assert!(r.is_err());
    assert!(r.err().unwrap().is_io());
}

#[test]
fn concrete_scenario() {
    // home is /tmp/h: the storage directory is the default path under it
    let home = Some("/tmp/h");
    let dir = snippetstore::paths::choose_init_dir(None, home).unwrap();
    assert_eq!(dir, "/tmp/h/.local/share/snippetstore");
    let path = snippetstore::paths::snippet_path(&dir, "foo.txt");
    assert_eq!(path, "/tmp/h/.local/share/snippetstore/foo.txt");
    let mut st = Store::new();
    assert!(st.create("foo.txt", "hello").is_ok());
    assert_eq!(st.read("foo.txt").unwrap(), "hello");
    let lines = st.list();
    assert!(lines.iter().any(|l| l.ends_with(": foo.txt")));
}
