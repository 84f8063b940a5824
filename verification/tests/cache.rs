use telora::cache::{
    canonicalize_existing_prefix, default_voxora_cache_dir, has_dangling_symlink_prefix, is_blank,
    probe_ancestors, probe_prefixes, resolve_voxora_cache, sanitize_voxora_cache_override,
    sanitize_with_source, CacheRoot, Canonical, NoCacheDirectory, Override, PrefixState, Rejection,
};
use telora::models::resolve_cache_root;
use telora::unix_path::UnixPath;

const ROOT: &str = "/home/u/.cache";

fn p(s: &str) -> UnixPath {
    UnixPath::from_text(s)
}

/// The file system: these directories exist and are canonical.
fn canonical_of(path: &UnixPath, existing: &[&str]) -> Vec<Canonical> {
    probe_ancestors(path)
        .into_iter()
        .map(|a| {
            if existing.contains(&a.to_text().as_str()) {
                Canonical::Found(a)
            } else {
                Canonical::Missing
            }
        })
        .collect()
}

fn existing() -> Vec<&'static str> {
    vec!["/", "/home", "/home/u", "/home/u/.cache", "/tmp", "/etc", "/home/u/.cache/there"]
}

fn root() -> CacheRoot {
    CacheRoot { dir: Some(p(ROOT)), ancestors: canonical_of(&p(ROOT), &existing()) }
}

fn over(s: &str) -> Override {
    let path = p(s);
    let known = existing();
    let prefixes = probe_prefixes(&path)
        .iter()
        .map(|q| {
            if known.contains(&q.to_text().as_str()) {
                PrefixState::Present
            } else {
                PrefixState::Missing
            }
        })
        .collect();
    let ancestors = canonical_of(&path, &known);
    let here = known.contains(&s);
    Override { path, exists: here, is_dir: here, prefixes, ancestors }
}

fn text(r: Result<UnixPath, NoCacheDirectory>) -> String {
    match r {
        Ok(q) => q.to_text(),
        Err(e) => panic!("{}", e.message()),
    }
}

#[test]
fn default_cache_uses_legacy_suffix() {
    let resolved = match default_voxora_cache_dir(None, &root()) {
        Ok(q) => q,
        Err(_) => panic!("cache path should resolve"),
    };
    assert!(resolved.starts_with(&p(ROOT)));
    assert!(resolved.ends_with(&p("voxora/models/huggingface")));
    assert_eq!(resolved.to_text(), "/home/u/.cache/voxora/models/huggingface");
}

#[test]
fn default_cache_honours_safe_override() {
    let o = over("/home/u/.cache/custom-cache");
    assert_eq!(text(default_voxora_cache_dir(Some(&o), &root())), "/home/u/.cache/custom-cache");
}

#[test]
fn rejects_parent_dir_override() {
    assert!(sanitize_voxora_cache_override(&over("/tmp/foo/../bar"), &root()).is_none());
    assert_eq!(
        sanitize_with_source(&over("/tmp/foo/../bar"), &root()).err(),
        Some(Rejection::ParentTraversal)
    );
}

#[test]
fn rejects_absolute_path_outside_xdg() {
    assert!(sanitize_voxora_cache_override(&over("/etc"), &root()).is_none());
    assert!(sanitize_voxora_cache_override(&over("/this/path/does/not/exist"), &root()).is_none());
    assert_eq!(
        sanitize_with_source(&over("/etc"), &root()).err(),
        Some(Rejection::OutsideCacheDir)
    );
    assert!(sanitize_voxora_cache_override(&over("/home/u/.cache2"), &root()).is_none());
}

#[test]
fn rejects_symlinked_prefix_outside_xdg() {
    let mut o = over("/home/u/.cache/escape/new-cache");
    o.prefixes[3] = PrefixState::Present;
    o.prefixes[4] = PrefixState::Symlink { resolves: true };
    o.ancestors[1] = Canonical::Found(p("/outside"));
    assert_eq!(sanitize_with_source(&o, &root()).err(), Some(Rejection::OutsideCacheDir));
}

#[test]
fn rejects_dangling_symlinked_prefix() {
    let mut o = over("/home/u/.cache/dangling/new-cache");
    o.prefixes[4] = PrefixState::Symlink { resolves: false };
    assert_eq!(sanitize_with_source(&o, &root()).err(), Some(Rejection::DanglingSymlink));
}

#[test]
fn accepts_nonexistent_directory_under_xdg() {
    let accepted = sanitize_voxora_cache_override(&over("/home/u/.cache/new/cache"), &root());
    assert_eq!(accepted.map(|q| q.to_text()), Some("/home/u/.cache/new/cache".to_string()));
}

#[test]
fn rejects_existing_non_directory() {
    let mut o = over("/home/u/.cache/cache-file");
    o.exists = true;
    assert_eq!(sanitize_with_source(&o, &root()).err(), Some(Rejection::NotADirectory));
}

#[test]
fn accepts_relative_path_without_parent_traversal() {
    let accepted = sanitize_voxora_cache_override(&over("voxora-cache"), &root());
    assert_eq!(accepted.map(|q| q.to_text()), Some("voxora-cache".to_string()));
}

#[test]
fn resolves_cli_before_environment() {
    let cli = over("/home/u/.cache/cli-cache");
    let env = over("/home/u/.cache/env-cache");
    assert_eq!(
        text(resolve_voxora_cache(Some(&cli), Some(&env), &root())),
        "/home/u/.cache/cli-cache"
    );
    assert_eq!(
        text(resolve_voxora_cache(None, Some(&env), &root())),
        "/home/u/.cache/env-cache"
    );
}

#[test]
fn rejects_unsafe_cli_and_environment_overrides() {
    let bad_cli = over("/tmp/another-cli-test/cache/../elsewhere");
    let bad_env = over("/tmp/this-is-a-test/cache-root/../../etc");
    let expected = "/home/u/.cache/voxora/models/huggingface";
    assert_eq!(text(resolve_voxora_cache(Some(&bad_cli), None, &root())), expected);
    assert_eq!(text(resolve_voxora_cache(None, Some(&bad_env), &root())), expected);
}

#[test]
fn invalid_cli_does_not_fall_through_to_environment_override() {
    let safe_env = over("/home/u/.cache/env-cache");
    let expected = "/home/u/.cache/voxora/models/huggingface";
    for bad in ["/tmp/another-cli-test/cache/../elsewhere", "\t"] {
        assert_eq!(
            text(resolve_voxora_cache(Some(&over(bad)), Some(&safe_env), &root())),
            expected
        );
    }
}

#[test]
fn treats_empty_and_whitespace_overrides_as_absent() {
    let expected = "/home/u/.cache/voxora/models/huggingface";
    assert_eq!(
        text(resolve_voxora_cache(Some(&over("")), Some(&over("   ")), &root())),
        expected
    );
    assert_eq!(text(resolve_voxora_cache(None, Some(&over("/tmp/escape ")), &root())), expected);
    assert!(is_blank(&p("")));
    assert!(is_blank(&p(" \t")));
    assert!(!is_blank(&p("a")));
}

#[test]
fn default_cache_rejects_padded_environment_override() {
    let o = over("/tmp/escape ");
    assert_eq!(sanitize_with_source(&o, &root()).err(), Some(Rejection::Padded));
    let resolved = text(default_voxora_cache_dir(Some(&o), &root()));
    assert!(p(&resolved).ends_with(&p("voxora/models/huggingface")));
}

#[test]
fn rejects_whitespace_padded_and_relative_traversal_values() {
    assert!(sanitize_voxora_cache_override(&over(" /tmp/escape"), &root()).is_none());
    assert!(sanitize_voxora_cache_override(&over("/tmp/escape "), &root()).is_none());
    assert!(sanitize_voxora_cache_override(&over("relative/../escape"), &root()).is_none());
}

#[test]
fn rejects_non_utf8_path_with_trailing_whitespace() {
    let mut o = over("/home/u/.cache/cache");
    o.path.bytes.push(0xff);
    o.path.bytes.push(b' ');
    assert_eq!(sanitize_with_source(&o, &root()).err(), Some(Rejection::Padded));
}

#[test]
fn existing_override_is_handed_out_in_canonical_form() {
    let mut o = over("/home/u/.cache/there");
    assert_eq!(
        sanitize_voxora_cache_override(&o, &root()).map(|q| q.to_text()),
        Some("/home/u/.cache/there".to_string())
    );
    o.ancestors[0] = Canonical::Found(p("/home/u/.cache/real"));
    assert_eq!(
        sanitize_voxora_cache_override(&o, &root()).map(|q| q.to_text()),
        Some("/home/u/.cache/real".to_string())
    );
}

#[test]
fn every_rejection_has_its_input() {
    let none = CacheRoot { dir: None, ancestors: Vec::new() };
    assert_eq!(sanitize_with_source(&over(" "), &root()).err(), Some(Rejection::Blank));
    assert_eq!(
        sanitize_with_source(&over("/home/u/.cache/x"), &none).err(),
        Some(Rejection::NoCacheDir)
    );
    let failed = CacheRoot { dir: Some(p(ROOT)), ancestors: vec![Canonical::Failed] };
    assert_eq!(
        sanitize_with_source(&over("/home/u/.cache/x"), &failed).err(),
        Some(Rejection::CacheDirUnresolved)
    );
    let mut o = over("/home/u/.cache/x");
    o.ancestors = vec![Canonical::Missing, Canonical::Failed];
    assert_eq!(sanitize_with_source(&o, &root()).err(), Some(Rejection::Unresolved));
    assert!(default_voxora_cache_dir(None, &none).is_err());
    assert_eq!(
        NoCacheDirectory.message(),
        "cannot determine a safe voxora cache directory: dirs::cache_dir() returned None; set $XDG_CACHE_HOME to validate absolute overrides or use a relative cache path"
    );
}

#[test]
fn missing_names_are_appended_to_the_existing_prefix() {
    let path = p("/a/b/c");
    let names: Vec<String> = probe_ancestors(&path).iter().map(|q| q.to_text()).collect();
    assert_eq!(names, vec!["/a/b/c", "/a/b", "/a", "/"]);
    let found = vec![Canonical::Missing, Canonical::Missing, Canonical::Found(p("/real"))];
    assert_eq!(
        canonicalize_existing_prefix(&path, &found).map(|q| q.to_text()),
        Some("/real/b/c".to_string())
    );
    assert!(canonicalize_existing_prefix(&path, &Vec::new()).is_none());
    assert!(canonicalize_existing_prefix(&p("/"), &vec![Canonical::Missing]).is_none());
    let names: Vec<String> = probe_prefixes(&p("/a//b")).iter().map(|q| q.to_text()).collect();
    assert_eq!(names, vec!["/", "/a", "/a/b"]);
}

#[test]
fn a_missing_prefix_ends_the_search_for_links() {
    let link = PrefixState::Symlink { resolves: false };
    assert!(has_dangling_symlink_prefix(&vec![PrefixState::Present, link]));
    assert!(!has_dangling_symlink_prefix(&vec![PrefixState::Missing, link]));
    assert!(has_dangling_symlink_prefix(&vec![PrefixState::Unreadable]));
    assert!(!has_dangling_symlink_prefix(&vec![PrefixState::Symlink { resolves: true }]));
}

#[test]
fn cache_override_traversal_is_rejected() {
    let bad = over("/tmp/foo/../bar");
    let resolved = text(resolve_cache_root(None, Some(&bad), &root()));
    assert!(p(&resolved).ends_with(&p("voxora/models/huggingface")));
    assert_ne!(resolved, "/tmp/bar");
}

#[test]
fn cli_cache_override_is_sanitized_too() {
    let bad = over("/tmp/foo/../bar");
    let resolved = text(resolve_cache_root(Some(&bad), None, &root()));
    assert!(p(&resolved).ends_with(&p("voxora/models/huggingface")));
    assert_ne!(resolved, "/tmp/bar");
}
