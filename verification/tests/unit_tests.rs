use snippetstore::SnippetStoreError;
use snippetstore::decimal::usize_to_string;
use snippetstore::errors::require_arg;
use snippetstore::listing::Entry;
use snippetstore::listing::render_line;
use snippetstore::listing::render_listing;
use snippetstore::paths::choose_init_dir;
use snippetstore::paths::default_dir;
use snippetstore::paths::resolve_dir;
use snippetstore::paths::snippet_path;

#[test]
fn decimal_rendering_exact_values() {
    assert_eq!(usize_to_string(0), "0");
    assert_eq!(usize_to_string(7), "7");
    assert_eq!(usize_to_string(10), "10");
    assert_eq!(usize_to_string(100), "100");
    assert_eq!(usize_to_string(12345), "12345");
}

#[test]
fn render_line_exact_value() {
    assert_eq!(render_line(3, "x.txt"), "3: x.txt");
    assert_eq!(render_line(12, "notes"), "12: notes");
}

#[test]
fn render_listing_skips_directories_and_keeps_indices() {
    let entries = vec![
        Entry { name: "a".to_string(), content: String::new(), is_dir: false },
        Entry { name: "d".to_string(), content: String::new(), is_dir: true },
        Entry { name: "b".to_string(), content: String::new(), is_dir: false },
    ];
    assert_eq!(render_listing(&entries), vec!["0: a".to_string(), "2: b".to_string()]);
}

#[test]
fn default_path_under_home() {
    assert_eq!(default_dir("/home/u"), "/home/u/.local/share/snippetstore");
}

#[test]
fn resolve_requires_home() {
    let r = resolve_dir(None);
    assert!(r.is_err());
    assert!(r.err().unwrap().is_configuration());
    assert_eq!(resolve_dir(Some("/h")).unwrap(), "/h/.local/share/snippetstore");
}

#[test]
fn explicit_path_wins_over_home() {
    let r = choose_init_dir(Some("/data/snips".to_string()), Some("/h"));
    assert_eq!(r.unwrap(), "/data/snips");
}

#[test]
fn init_without_home_or_path_is_configuration_error() {
    let r = choose_init_dir(None, None);
    assert!(r.is_err());
    assert!(r.err().unwrap().is_configuration());
}

#[test]
fn snippet_path_joins_with_separator() {
    assert_eq!(snippet_path("/d", "n.txt"), "/d/n.txt");
}

#[test]
fn missing_argument_is_invalid_argument() {
    let r = require_arg(None);
    assert!(r.is_err());
    let e = r.err().unwrap();
    assert!(e.is_invalid_argument());
    assert!(!e.is_io());
    assert!(!e.is_configuration());
    assert_eq!(e.message(), "a required argument was not supplied");
}

#[test]
fn present_argument_passes_through() {
    assert_eq!(require_arg(Some("n".to_string())).unwrap(), "n");
}

#[test]
fn error_messages() {
    assert_eq!(
        SnippetStoreError::ConfigurationError.message(),
        "ENV variable HOME not found"
    );
    assert_eq!(SnippetStoreError::IOError("disk gone".to_string()).message(), "disk gone");
}
