use textbuf::{FileType, HighlightingOptions};

#[test]
fn rust_profile_by_extension() {
    let file_type = FileType::from("src/main.rs");
    assert_eq!(file_type.name(), "Rust");
    let opts = file_type.highlighting_options();
    assert!(opts.numbers());
    assert!(opts.strings());
    assert!(opts.characters());
    assert!(opts.comments());
    assert_eq!(opts.primary_keywords().len(), 51);
    assert_eq!(opts.primary_keywords()[0], "as");
    assert_eq!(opts.primary_keywords()[50], "try");
    assert!(opts.primary_keywords().iter().any(|word| word == "if"));
    assert_eq!(opts.secondary_keywords().len(), 14);
    assert_eq!(opts.secondary_keywords()[0], "bool");
    assert_eq!(opts.secondary_keywords()[13], "f64");
}

#[test]
fn shortest_rust_file_name() {
    assert_eq!(FileType::from(".rs").name(), "Rust");
    assert_eq!(FileType::from("\u{e9}.rs").name(), "Rust");
}

#[test]
fn unknown_profile_for_other_names() {
    for name in ["", "rs", "main.c", "main.rs.bak", "main.RS", "mainrs", "a.r"] {
        let file_type = FileType::from(name);
        assert_eq!(file_type.name(), "No filetype");
        let opts = file_type.highlighting_options();
        assert!(!opts.numbers());
        assert!(!opts.strings());
        assert!(!opts.characters());
        assert!(!opts.comments());
        assert!(opts.primary_keywords().is_empty());
        assert!(opts.secondary_keywords().is_empty());
    }
}

#[test]
fn default_profile_is_unknown() {
    let file_type = FileType::default();
    assert_eq!(file_type.name(), "No filetype");
    assert_ne!(file_type.name(), FileType::from("a.rs").name());
    let opts = HighlightingOptions::default();
    assert!(!opts.numbers());
    assert!(opts.primary_keywords().is_empty());
}

#[test]
fn new_options_keep_what_they_are_given() {
    let opts = HighlightingOptions::new(
        true,
        false,
        true,
        false,
        vec![String::from("a")],
        vec![String::from("b"), String::from("c")],
    );
    assert!(opts.numbers());
    assert!(!opts.strings());
    assert!(opts.characters());
    assert!(!opts.comments());
    assert_eq!(opts.primary_keywords(), &vec![String::from("a")]);
    assert_eq!(opts.secondary_keywords().len(), 2);
}
