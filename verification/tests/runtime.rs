use std::path::PathBuf;

use media_studio::runtime::{find_on_path, is_on_path, optional, optional_usable, probe_first, required, OptionalStatus};

#[test]
fn programs_not_on_path_are_missing() {
    assert!(optional("media-studio-no-such-program-here").is_none());
    assert!(find_on_path("media-studio-no-such-program-here").is_none());
    let e = required("media-studio-no-such-program-here").unwrap_err();
    assert_eq!(
        e.message(),
        "не найден обязательный инструмент `media-studio-no-such-program-here` в PATH; установите пакет и повторите запуск"
    );
}

#[test]
fn programs_on_path_are_found() {
    let sh = optional("sh").expect("sh is on PATH");
    assert!(sh.text.ends_with("/sh"));
    assert_ne!(sh.text, "sh");
    assert_eq!(sh.path.file_name().and_then(|n| n.to_str()), Some("sh"));
    assert_eq!(sh.path.to_string_lossy(), sh.text);
}

#[test]
fn optional_helpers() {
    assert_eq!(optional_usable(OptionalStatus::Available(PathBuf::from("/x"))), Some(PathBuf::from("/x")));
    assert_eq!(optional_usable(OptionalStatus::Unavailable(PathBuf::from("/x"))), None);
    assert_eq!(optional_usable(OptionalStatus::Missing), None);
    let first = probe_first(vec![
        OptionalStatus::Missing,
        OptionalStatus::Unavailable(PathBuf::from("/a")),
        OptionalStatus::Available(PathBuf::from("/b")),
        OptionalStatus::Available(PathBuf::from("/c")),
    ]);
    assert!(matches!(first, OptionalStatus::Available(p) if p == PathBuf::from("/b")));
    let none = probe_first(vec![OptionalStatus::Unavailable(PathBuf::from("/a")), OptionalStatus::Missing]);
    assert!(matches!(none, OptionalStatus::Unavailable(p) if p == PathBuf::from("/a")));
}

#[test]
fn absolute_names_are_found_as_themselves() {
    if std::path::Path::new("/bin/sh").exists() {
        let found = optional("/bin/sh").expect("/bin/sh exists");
        assert_eq!(found.path, PathBuf::from("/bin/sh"));
        assert_eq!(found.text, "/bin/sh");
        assert_eq!(required("/bin/sh").unwrap().path, PathBuf::from("/bin/sh"));
    }
}

#[test]
fn on_path_answers_follow_the_lookup() {
    assert!(is_on_path("sh"));
    assert!(!is_on_path("media-studio-no-such-program-here"));
}
