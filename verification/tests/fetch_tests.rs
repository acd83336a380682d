use chaosnexus_codex::config::LibraryConfig;
use chaosnexus_codex::fetch::{
    clone_args, fetch_work_dir, flatten_rel_path, plan_markdown_copies, sparse_checkout_args,
    sparse_checkout_wanted, CopyJob, FetchAction, FetchEvent, FetchOutcome, FetchStage, LibraryFetch,
    WalkEntry,
};
use std::path::PathBuf;

fn lib(sub_dir: &str, use_sparse: bool) -> LibraryConfig {
    LibraryConfig {
        repo_url: "https://example.com/repo.git".to_string(),
        sub_dir: sub_dir.to_string(),
        dst_folder: "rhai".to_string(),
        use_sparse,
    }
}

#[test]
fn flatten_rel_path_joins_segments() {
    let p = PathBuf::from("a").join("b").join("c.md");
    let flat = flatten_rel_path(&p.to_string_lossy());
    assert!(flat.contains("a"));
    assert!(flat.ends_with("c.md"));
    assert!(!flat.contains(std::path::MAIN_SEPARATOR));
}

#[test]
fn flatten_rel_path_exact() {
    assert_eq!(flatten_rel_path("guide/intro/start.md"), "guide_intro_start.md");
    assert_eq!(flatten_rel_path("plain.md"), "plain.md");
    assert_eq!(flatten_rel_path(""), "");
    assert_eq!(flatten_rel_path("/x/"), "_x_");
}

fn entry(path: &str, rel: &str, is_file: bool) -> Option<WalkEntry> {
    let name = path.rsplit('/').next().unwrap_or(path);
    Some(WalkEntry {
        path: path.as_bytes().to_vec(),
        file_name: name.to_string(),
        rel_path: rel.to_string(),
        is_file,
    })
}

fn b(s: &str) -> Vec<u8> {
    s.as_bytes().to_vec()
}

fn bs(v: &[&str]) -> Vec<Vec<u8>> {
    v.iter().map(|s| b(s)).collect()
}

#[test]
fn flatten_markdown_tree_copies_md_only() {
    // The walk of src/ holding nested/page.md and skip.txt, flattened into dst/.
    let entries = vec![
        entry("/tmp/t/src", "", false),
        entry("/tmp/t/src/nested", "nested", false),
        entry("/tmp/t/src/nested/page.md", "nested/page.md", true),
        entry("/tmp/t/src/skip.txt", "skip.txt", true),
    ];
    let jobs = plan_markdown_copies(&entries, b"/tmp/t/dst");
    assert_eq!(jobs.len(), 1);
    assert!(jobs[0].target.ends_with(b".md"));
    assert_eq!(jobs[0], CopyJob { source: b("/tmp/t/src/nested/page.md"), target: b("/tmp/t/dst/nested_page.md") });
}

#[test]
fn plan_keeps_mdx_skips_unreadable_dirs_and_dotfiles() {
    let entries = vec![
        None,
        entry("/s/a.mdx", "a.mdx", true),
        entry("/s/dir.md", "dir.md", false),
        entry("/s/.md", ".md", true),
        entry("/s/b.MD", "b.MD", true),
        entry("/s/x/y.md", "x/y.md", true),
    ];
    let jobs = plan_markdown_copies(&entries, b"/d/");
    let targets: Vec<Vec<u8>> = jobs.iter().map(|j| j.target.clone()).collect();
    assert_eq!(targets, bs(&["/d/a.mdx", "/d/x_y.md"]));
}

#[test]
fn clone_arguments_shallow_and_sparse() {
    assert_eq!(
        clone_args(&lib("docs", false), b"/tmp/w/rhai"),
        bs(&["clone", "--depth", "1", "https://example.com/repo.git", "/tmp/w/rhai"])
    );
    assert_eq!(
        clone_args(&lib("docs", true), b"/tmp/w/rhai"),
        bs(&[
            "clone",
            "--depth",
            "1",
            "--filter=blob:none",
            "--sparse",
            "https://example.com/repo.git",
            "/tmp/w/rhai"
        ])
    );
    assert_eq!(sparse_checkout_args(&lib("docs", true)), bs(&["sparse-checkout", "set", "docs"]));
}

#[test]
fn sparse_checkout_only_for_real_subdirectories() {
    assert!(sparse_checkout_wanted(&lib("docs", true)));
    assert!(!sparse_checkout_wanted(&lib("docs", false)));
    assert!(!sparse_checkout_wanted(&lib("", true)));
    assert!(!sparse_checkout_wanted(&lib(".", true)));
    assert!(!sparse_checkout_wanted(&lib("/", true)));
    assert!(sparse_checkout_wanted(&lib("./docs", true)));
}

#[test]
fn work_dir_under_temp() {
    assert_eq!(fetch_work_dir(b"/tmp"), b("/tmp/chaosdocs_docs_fetch"));
    assert_eq!(fetch_work_dir(b"/tmp/"), b("/tmp/chaosdocs_docs_fetch"));
}

#[test]
fn fetch_steps_sparse_library_to_the_end() {
    let (mut f, first) = LibraryFetch::start(lib("docs", true), b"/tmp/w", b"/data");
    assert_eq!(f.paths.tmp_repo, b("/tmp/w/rhai"));
    assert_eq!(f.paths.dst_dir, b("/data/rhai"));
    assert_eq!(f.paths.src_dir, b("/tmp/w/rhai/docs"));
    match first {
        FetchAction::RunGit { args, cwd } => {
            assert_eq!(args[0], b("clone"));
            assert_eq!(cwd, None);
        }
        _ => panic!("clone expected"),
    }
    match f.advance(FetchEvent::GitExited { success: true }) {
        FetchAction::RunGit { args, cwd } => {
            assert_eq!(args, bs(&["sparse-checkout", "set", "docs"]));
            assert_eq!(cwd, Some(b("/tmp/w/rhai")));
        }
        _ => panic!("sparse checkout expected"),
    }
    match f.advance(FetchEvent::GitExited { success: false }) {
        FetchAction::CheckSource { path, sparse_failed } => {
            assert_eq!(path, b("/tmp/w/rhai/docs"));
            assert!(sparse_failed);
        }
        _ => panic!("source check expected"),
    }
    match f.advance(FetchEvent::SourceChecked { exists: true }) {
        FetchAction::Flatten { src, dst } => {
            assert_eq!(src, b("/tmp/w/rhai/docs"));
            assert_eq!(dst, b("/data/rhai"));
        }
        _ => panic!("flatten expected"),
    }
    match f.advance(FetchEvent::Flattened) {
        FetchAction::Finish { outcome } => assert_eq!(outcome, FetchOutcome::Stored),
        _ => panic!("finish expected"),
    }
    assert_eq!(f.stage, FetchStage::Finished);
}

#[test]
fn fetch_stops_on_failed_clone_and_missing_source() {
    let (mut f, _) = LibraryFetch::start(lib("docs", false), b"/tmp/w", b"/data");
    match f.advance(FetchEvent::GitExited { success: false }) {
        FetchAction::Finish { outcome } => assert_eq!(outcome, FetchOutcome::CloneFailed),
        _ => panic!("finish expected"),
    }
    let (mut g, _) = LibraryFetch::start(lib("docs", false), b"/tmp/w", b"/data");
    match g.advance(FetchEvent::GitExited { success: true }) {
        FetchAction::CheckSource { path, sparse_failed } => {
            assert_eq!(path, b("/tmp/w/rhai/docs"));
            assert!(!sparse_failed);
        }
        _ => panic!("source check expected"),
    }
    match g.advance(FetchEvent::SourceChecked { exists: false }) {
        FetchAction::Finish { outcome } => assert_eq!(outcome, FetchOutcome::SourceMissing),
        _ => panic!("finish expected"),
    }
}
