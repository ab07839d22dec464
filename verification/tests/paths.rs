use std::path::Path;
use virtual_core::paths::{extension, file_name, file_stem, parent, resolve, with_extension};

const CASES: &[&str] = &[
    "", "/", "//", ".", "./", "./.", "..", "../", "a", "a/", "a//", "a/.", "a/./", "a/..", "a/../", "/a", "//a", "/a/",
    "/a/b", "/a/./b", "/a/b/.", "./a", "././a", "../a", "a/b/c.iso", "/x/y/game.tar.gz", ".bashrc", "dir/.bashrc",
    "name.", "/vm/disk-0.qcow2", "/vm/../states/x.state", "/.", "a.b/c", "a.b/.",
];

fn text(p: Option<&Path>) -> Option<String> {
    p.map(|x| x.to_string_lossy().into_owned())
}

#[test]
fn parent_matches_std() {
    for c in CASES {
        assert_eq!(parent(c), text(Path::new(c).parent()), "parent of {c:?}");
    }
}

#[test]
fn file_name_matches_std() {
    for c in CASES {
        let want = Path::new(c).file_name().map(|x| x.to_string_lossy().into_owned());
        assert_eq!(file_name(c), want, "file name of {c:?}");
    }
}

#[test]
fn stem_and_extension_match_std() {
    for c in CASES {
        let stem = Path::new(c).file_stem().map(|x| x.to_string_lossy().into_owned());
        let ext = Path::new(c).extension().map(|x| x.to_string_lossy().into_owned());
        assert_eq!(file_stem(c), stem, "stem of {c:?}");
        assert_eq!(extension(c), ext, "extension of {c:?}");
    }
}

#[test]
fn with_extension_matches_std() {
    for c in CASES {
        for e in ["iso", "", "state.auto"] {
            let want = Path::new(c).with_extension(e).to_string_lossy().into_owned();
            assert_eq!(with_extension(c, e), want, "{c:?} with extension {e:?}");
        }
    }
}

#[test]
fn resolve_joins_or_replaces() {
    assert_eq!(resolve("/vm/test", "disk-0.qcow2"), "/vm/test/disk-0.qcow2");
    assert_eq!(resolve("/vm/test/", "tpm"), "/vm/test/tpm");
    assert_eq!(resolve("/vm/test", "/abs/file"), "/abs/file");
    assert_eq!(resolve("", "rel"), "rel");
}
