use std::path::{Component, Path};
use telora::unix_path::UnixPath;

fn p(s: &str) -> UnixPath {
    UnixPath::from_text(s)
}

const SAMPLES: &[&str] = &[
    "", "/", "//", ".", "./", "..", "../", "a", "a/", "/a", "/a/", "a/b", "/a/b", "a//b", "//a//b//",
    "./a", "a/.", "a/./b", "/.", "/./a", "/..", "/../a", "a/..", "a/../b", "./..", ".a", "a.", "..a",
    "/a/b/c/", "a/b/../c", "/tmp/x y", "ñ/é", "/run/user/1000/telora", "./.", ".//.", "/a/..",
];

#[test]
fn components_agree_with_std() {
    for s in SAMPLES {
        let ours: Vec<String> = p(s).components().iter().map(|c| c.to_text()).collect();
        let theirs: Vec<String> = Path::new(s)
            .components()
            .map(|c| c.as_os_str().to_str().unwrap_or("").to_string())
            .collect();
        assert_eq!(ours, theirs, "{s:?}");
        let dots = Path::new(s).components().any(|c| matches!(c, Component::ParentDir));
        assert_eq!(p(s).has_parent_dir(), dots, "{s:?}");
        assert_eq!(p(s).is_absolute(), Path::new(s).is_absolute(), "{s:?}");
    }
}

#[test]
fn parent_and_file_name_agree_with_std() {
    for s in SAMPLES {
        let ours = p(s).parent().map(|q| q.to_text());
        let theirs = Path::new(s).parent().map(|q| q.to_str().unwrap_or("").to_string());
        assert_eq!(ours, theirs, "{s:?}");
        let ours = p(s).file_name().map(|q| q.to_text());
        let theirs = Path::new(s).file_name().map(|q| q.to_str().unwrap_or("").to_string());
        assert_eq!(ours, theirs, "{s:?}");
    }
}

#[test]
fn join_and_prefixes_agree_with_std() {
    for a in SAMPLES {
        for b in SAMPLES {
            let joined = Path::new(a).join(b);
            assert_eq!(p(a).join(&p(b)).to_text(), joined.to_str().unwrap_or(""), "{a:?} {b:?}");
            assert_eq!(p(a).starts_with(&p(b)), Path::new(a).starts_with(b), "{a:?} {b:?}");
            assert_eq!(p(a).ends_with(&p(b)), Path::new(a).ends_with(b), "{a:?} {b:?}");
        }
    }
}

#[test]
fn paths_need_not_be_utf8() {
    let q = UnixPath { bytes: vec![b'/', 0xff, b'/', b'x'] };
    assert_eq!(q.components().len(), 3);
    assert_eq!(q.components()[1].bytes, vec![0xff]);
    assert_eq!(q.to_text(), "/\u{fffd}/x");
    assert!(q.same(&q.clone()));
    assert!(!q.same(&p("/x")));
    assert!(p("").is_empty());
}
