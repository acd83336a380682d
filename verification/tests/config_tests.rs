use chaosnexus_codex::config::{config_search_groups, first_loaded, CodexConfig, LibraryConfig};

fn lib(folder: &str, url: &str) -> LibraryConfig {
    LibraryConfig {
        repo_url: url.to_string(),
        sub_dir: "docs".to_string(),
        dst_folder: folder.to_string(),
        use_sparse: false,
    }
}

fn sample() -> CodexConfig {
    CodexConfig {
        port: Some(8080),
        default_offset: Some(10),
        default_limit: None,
        storage_path: None,
        library_type: Some("shared".to_string()),
        libraries: vec![lib("a", "u1"), lib("b", "u2")],
    }
}

#[test]
fn merge_overrides_given_settings_only() {
    let mut c = sample();
    let other = CodexConfig {
        port: None,
        default_offset: Some(5),
        default_limit: Some(100),
        storage_path: Some("/srv/docs".to_string()),
        library_type: None,
        libraries: vec![],
    };
    c.merge(other);
    assert_eq!(c.port, Some(8080));
    assert_eq!(c.default_offset, Some(5));
    assert_eq!(c.default_limit, Some(100));
    assert_eq!(c.storage_path, Some("/srv/docs".to_string()));
    assert_eq!(c.library_type, Some("shared".to_string()));
    assert_eq!(c.libraries.len(), 2);
}

#[test]
fn merge_replaces_nonempty_library_list() {
    let mut c = sample();
    let mut other = CodexConfig::default();
    other.libraries = vec![lib("z", "u9")];
    c.merge(other);
    assert_eq!(c.libraries, vec![lib("z", "u9")]);
}

#[test]
fn merge_with_default_is_identity() {
    let mut c = sample();
    c.merge(CodexConfig::default());
    assert_eq!(c, sample());
    let mut d = CodexConfig::default();
    d.merge(sample());
    assert_eq!(d, sample());
}

#[test]
fn merge_is_associative_on_example() {
    let a = sample();
    let mut b = CodexConfig::default();
    b.port = Some(1);
    b.libraries = vec![lib("q", "u")];
    let mut c = CodexConfig::default();
    c.default_limit = Some(7);
    let mut left = a.clone();
    left.merge(b.clone());
    left.merge(c.clone());
    let mut bc = b.clone();
    bc.merge(c.clone());
    let mut right = a.clone();
    right.merge(bc);
    assert_eq!(left, right);
}

fn home(s: &str) -> Option<Vec<u8>> {
    Some(s.as_bytes().to_vec())
}

#[test]
fn storage_path_rules() {
    let mut c = CodexConfig::default();
    assert_eq!(c.storage_path_with(home("/home/al"), None), b"/home/al/.chaosnexus/chaosnexus-codex/data".to_vec());
    assert_eq!(c.storage_path_with(None, None), b"./data".to_vec());
    assert_eq!(
        c.storage_path_with(home("/home/al"), Some("inst".to_string())),
        b"/home/al/.chaosnexus/chaosnexus-codex/data".to_vec()
    );
    c.library_type = Some("local".to_string());
    assert_eq!(
        c.storage_path_with(home("/home/al"), Some("inst".to_string())),
        b"/home/al/.chaosnexus/chaosnexus-codex/inst/data".to_vec()
    );
    assert_eq!(c.storage_path_with(home("/home/al"), None), b"/home/al/.chaosnexus/chaosnexus-codex/data".to_vec());
    c.storage_path = Some("/srv/x".to_string());
    assert_eq!(c.storage_path_with(home("/home/al"), Some("inst".to_string())), b"/srv/x".to_vec());
    assert_eq!(c.resolved_storage_path(None), b"/srv/x".to_vec());
}

#[test]
fn storage_path_keeps_non_utf8_home_bytes() {
    let c = CodexConfig::default();
    let raw = vec![b'/', b'h', 0xff, b'x'];
    let mut expected = raw.clone();
    expected.extend_from_slice(b"/.chaosnexus/chaosnexus-codex/data");
    assert_eq!(c.storage_path_with(Some(raw), None), expected);
}

fn paths(v: &[&str]) -> Vec<Vec<u8>> {
    v.iter().map(|s| s.as_bytes().to_vec()).collect()
}

#[test]
fn search_groups_in_layering_order() {
    let g = config_search_groups(home("/h"), Some("i".to_string()), b"/w");
    assert_eq!(g.len(), 3);
    assert_eq!(
        g[0],
        paths(&[
            "/h/.chaosnexus/codex/chaosnexus-codex.toml",
            "/h/.chaosnexus/codex/codex.toml",
            "/h/.chaosnexus/codex/config.toml",
            "/h/.chaosnexus/chaosnexus-codex/chaosnexus-codex.toml",
            "/h/.chaosnexus/chaosnexus-codex/codex.toml",
            "/h/.chaosnexus/chaosnexus-codex/config.toml",
        ])
    );
    assert_eq!(
        g[1],
        paths(&[
            "/h/.chaosnexus/codex/i/chaosnexus-codex.toml",
            "/h/.chaosnexus/codex/i/config.toml",
            "/h/.chaosnexus/chaosnexus-codex/i/chaosnexus-codex.toml",
            "/h/.chaosnexus/chaosnexus-codex/i/config.toml",
        ])
    );
    assert_eq!(g[2], paths(&["/w/chaosnexus-codex.toml", "/w/codex.toml", "/w/config.toml"]));
    assert_eq!(config_search_groups(None, Some("i".to_string()), b"/w").len(), 1);
    assert_eq!(config_search_groups(home("/h"), None, b"/w").len(), 2);
}

#[test]
fn first_loaded_takes_first_found() {
    let mut x = CodexConfig::default();
    x.port = Some(1);
    let mut y = CodexConfig::default();
    y.port = Some(2);
    assert_eq!(first_loaded(vec![None, Some(x.clone()), Some(y)]), Some(x));
    assert_eq!(first_loaded(vec![None, None]), None);
    assert_eq!(first_loaded(vec![]), None);
}

#[test]
fn layers_overlay_in_order() {
    let mut home = CodexConfig::default();
    home.port = Some(1);
    home.default_limit = Some(50);
    home.libraries = vec![lib("a", "u")];
    let mut skipped = CodexConfig::default();
    skipped.port = Some(99);
    let mut cwd = CodexConfig::default();
    cwd.port = Some(3);
    let r = CodexConfig::from_layers(vec![
        vec![None, Some(home), Some(skipped)],
        vec![None, None],
        vec![Some(cwd)],
    ]);
    assert_eq!(r.port, Some(3));
    assert_eq!(r.default_limit, Some(50));
    assert_eq!(r.libraries, vec![lib("a", "u")]);
    assert_eq!(CodexConfig::from_layers(vec![]), CodexConfig::default());
}

#[test]
fn upsert_replaces_same_folder_and_appends() {
    let mut c = sample();
    c.upsert_library(lib("a", "new"));
    assert_eq!(c.libraries, vec![lib("b", "u2"), lib("a", "new")]);
    c.upsert_library(lib("c", "u3"));
    assert_eq!(c.libraries, vec![lib("b", "u2"), lib("a", "new"), lib("c", "u3")]);
}

#[test]
fn remove_reports_whether_anything_went() {
    let mut c = sample();
    assert!(!c.remove_library("zzz"));
    assert_eq!(c.libraries.len(), 2);
    assert!(c.remove_library("a"));
    assert_eq!(c.libraries, vec![lib("b", "u2")]);
    c.upsert_library(lib("b", "again"));
    assert!(c.remove_library("b"));
    assert!(c.libraries.is_empty());
}

#[test]
fn merge_with_itself_changes_nothing() {
    let mut c = sample();
    c.merge(sample());
    assert_eq!(c, sample());
}
