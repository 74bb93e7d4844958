use media_studio::pathname::{file_name_of, join_path, parent_of, same_path, stem_and_extension};
use std::path::Path;

const SAMPLES: &[&str] = &[
    "", "/", "//", ".", "..", "./", "./x", "x", "x/", "x/.", "x/..", "/a/b", "/a/b/", "/a/b/.",
    "/a/./b", "a//b", "/a/b.c", "/a/.b", "/a/.b.c", "/a/b.", "/a/b..c", "a/b.tar.gz", "./.", "/.",
    "/..", "../a", "a/./", "./a/b.mkv", "/tmp/with space.mkv", "/a/Видео.MKV",
];

#[test]
fn names_agree_with_std_path() {
    for s in SAMPLES {
        let p = Path::new(s);
        assert_eq!(file_name_of(s), p.file_name().map(|n| n.to_string_lossy().into_owned()), "file_name of {s:?}");
        let (stem, ext) = stem_and_extension(s);
        assert_eq!(stem, p.file_stem().map(|n| n.to_string_lossy().into_owned()), "file_stem of {s:?}");
        assert_eq!(ext, p.extension().map(|n| n.to_string_lossy().into_owned()), "extension of {s:?}");
        assert_eq!(
            parent_of(s),
            p.parent().map(|q| q.to_string_lossy().into_owned()),
            "parent of {s:?}"
        );
    }
}

#[test]
fn joins_and_equality_agree_with_std_path() {
    for a in SAMPLES {
        for b in ["x", "/y", "", "y/z"] {
            assert_eq!(
                join_path(a, b),
                Path::new(a).join(b).to_string_lossy().into_owned(),
                "join {a:?} {b:?}"
            );
        }
        for b in SAMPLES {
            assert_eq!(same_path(a, b), Path::new(a) == Path::new(b), "eq {a:?} {b:?}");
        }
    }
}
