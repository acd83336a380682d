//! Fetching documentation: flattening page trees into one folder and the
//! per-library sequence of git steps.

use vstd::prelude::*;
use vstd::string::StringExecFns;
use crate::config::{LibraryConfig, LibrarySpec};
use crate::paths::{
    is_markdown_path, has_markdown_extension, SEPARATOR, joined_bytes, join_text, path_join_bytes, utf8, bytes_of,
};
use crate::text::{chars_of, string_of, same_text};

verus! {

/// A relative path flattened into one file name: each separator becomes `_`.
pub open spec fn flattened(rel: Seq<char>) -> Seq<char> {
    rel.map_values(|c: char| if c == SEPARATOR { '_' } else { c })
}

/// Flattening keeps the length and every character but the separators, each
/// of which becomes `_`; no separator is left.
pub proof fn lemma_flattened_replaces_only_separators(rel: Seq<char>)
    ensures
        flattened(rel).len() == rel.len(),
        forall|i: int| 0 <= i < rel.len() && rel[i] != SEPARATOR ==> #[trigger] flattened(rel)[i] == rel[i],
        forall|i: int| 0 <= i < rel.len() && rel[i] == SEPARATOR ==> #[trigger] flattened(rel)[i] == '_',
        forall|i: int| 0 <= i < rel.len() ==> #[trigger] flattened(rel)[i] != SEPARATOR,
{
}

/// Flattens a relative path into a single file name (separators become `_`).
pub fn flatten_rel_path(rel: &str) -> (r: String)
    ensures
        r@ == flattened(rel@),
        r@.len() == rel@.len(),
        forall|i: int| 0 <= i < r@.len() ==> r@[i] != SEPARATOR,
        forall|i: int| 0 <= i < rel@.len() && rel@[i] != SEPARATOR ==> r@[i] == rel@[i],
        forall|i: int| 0 <= i < rel@.len() && rel@[i] == SEPARATOR ==> r@[i] == '_',
{
    proof {
        lemma_flattened_replaces_only_separators(rel@);
    }
    let cs = chars_of(rel);
    let mut out: Vec<char> = Vec::new();
    for i in 0..cs.len()
        invariant
            cs@ == rel@,
            out@ == flattened(cs@.take(i as int)),
    {
        let c = cs[i];
        if c == SEPARATOR {
            out.push('_');
        } else {
            out.push(c);
        }
        assert(out@ =~= flattened(cs@.take(i + 1)));
    }
    assert(cs@.take(cs@.len() as int) =~= cs@);
    string_of(out.as_slice())
}

/// One entry met while walking a documentation tree.
pub struct WalkEntry {
    /// The bytes of the entry's full path.
    pub path: Vec<u8>,
    /// The entry's file name (the whole path when it has none), as text.
    pub file_name: String,
    /// The entry's path relative to the walked directory, as text.
    pub rel_path: String,
    /// Whether the entry is a regular file.
    pub is_file: bool,
}

/// One file to copy: from `source` to `target` (path bytes).
#[derive(Debug, Clone, PartialEq, Eq)]
pub struct CopyJob {
    pub source: Vec<u8>,
    pub target: Vec<u8>,
}

/// The mathematical value of a [`WalkEntry`]: (path, file name, relative
/// path, is file).
pub open spec fn walk_entry_view(e: WalkEntry) -> (Seq<u8>, Seq<char>, Seq<char>, bool) {
    (e.path@, e.file_name@, e.rel_path@, e.is_file)
}

/// The views of the walk results (`None` for an entry that could not be read).
pub open spec fn walk_view(v: Seq<Option<WalkEntry>>) -> Seq<Option<(Seq<u8>, Seq<char>, Seq<char>, bool)>> {
    v.map_values(|o: Option<WalkEntry>| match o {
        Some(e) => Some(walk_entry_view(e)),
        None => None,
    })
}

/// The views of copy jobs: (source, target).
pub open spec fn jobs_view(v: Seq<CopyJob>) -> Seq<(Seq<u8>, Seq<u8>)> {
    v.map_values(|j: CopyJob| (j.source@, j.target@))
}

/// The copies that flattening a walked tree into `dst` makes: for each
/// readable entry, in walk order, that is a file whose name has a Markdown
/// extension, a copy from its path to `dst` joined with its flattened
/// relative path.
pub open spec fn copy_plan(
    entries: Seq<Option<(Seq<u8>, Seq<char>, Seq<char>, bool)>>,
    dst: Seq<u8>,
) -> Seq<(Seq<u8>, Seq<u8>)>
    decreases entries.len(),
{
    if entries.len() == 0 {
        Seq::empty()
    } else {
        let before = copy_plan(entries.drop_last(), dst);
        match entries.last() {
            Some(e) => if e.3 && is_markdown_path(e.1) {
                before.push((e.0, joined_bytes(dst, utf8(flattened(e.2)))))
            } else {
                before
            },
            None => before,
        }
    }
}

/// The copies that flatten the Markdown pages of a walked tree into `dst_dir`
/// (see [`copy_plan`]); their number is the number of files copied.
pub fn plan_markdown_copies(entries: &Vec<Option<WalkEntry>>, dst_dir: &[u8]) -> (r: Vec<CopyJob>)
    ensures
        jobs_view(r@) == copy_plan(walk_view(entries@), dst_dir@),
{
    let ghost all = walk_view(entries@);
    let mut out: Vec<CopyJob> = Vec::new();
    for i in 0..entries.len()
        invariant
            all == walk_view(entries@),
            jobs_view(out@) == copy_plan(all.take(i as int), dst_dir@),
    {
        proof {
            assert(all.take(i + 1).drop_last() =~= all.take(i as int));
        }
        match &entries[i] {
            Some(e) => {
                if e.is_file && has_markdown_extension(e.file_name.as_str()) {
                    let name = flatten_rel_path(e.rel_path.as_str());
                    let target = join_text(dst_dir, name.as_str());
                    let job = CopyJob { source: vstd::slice::slice_to_vec(e.path.as_slice()), target };
                    let ghost before = out@;
                    out.push(job);
                    assert(jobs_view(out@) =~= jobs_view(before).push((e.path@, joined_bytes(dst_dir@, utf8(flattened(e.rel_path@))))));
                }
            },
            None => {},
        }
    }
    proof {
        assert(all.take(entries@.len() as int) =~= all);
    }
    out
}

/// Whether a library is fetched with a sparse checkout of its subdirectory:
/// it asks for one and the subdirectory is not empty, `.` or `/`.
pub open spec fn wants_sparse_checkout(lib: LibrarySpec) -> bool {
    lib.use_sparse && lib.sub_dir.len() > 0 && lib.sub_dir != "."@ && lib.sub_dir != "/"@
}

/// The arguments of the `git` call that clones a library into `tmp_repo`:
/// a shallow clone, blob-less and sparse when the library asks for sparsity.
pub open spec fn clone_arguments(lib: LibrarySpec, tmp_repo: Seq<u8>) -> Seq<Seq<u8>> {
    if lib.use_sparse {
        seq![
            utf8("clone"@),
            utf8("--depth"@),
            utf8("1"@),
            utf8("--filter=blob:none"@),
            utf8("--sparse"@),
            utf8(lib.repo_url),
            tmp_repo,
        ]
    } else {
        seq![utf8("clone"@), utf8("--depth"@), utf8("1"@), utf8(lib.repo_url), tmp_repo]
    }
}

/// The views of a list of byte vectors (program arguments or paths).
pub open spec fn bytes_list_view(v: Seq<Vec<u8>>) -> Seq<Seq<u8>> {
    v.map_values(|a: Vec<u8>| a@)
}

/// The arguments of the `git` call, run inside the clone, that restricts a
/// sparse checkout to the library's subdirectory.
pub open spec fn sparse_arguments(lib: LibrarySpec) -> Seq<Seq<u8>> {
    seq![utf8("sparse-checkout"@), utf8("set"@), utf8(lib.sub_dir)]
}

/// Whether the library is fetched with a sparse checkout (see
/// [`wants_sparse_checkout`]).
pub fn sparse_checkout_wanted(lib: &LibraryConfig) -> (r: bool)
    ensures
        r == wants_sparse_checkout(lib@),
{
    let sub = lib.sub_dir.as_str();
    let dot = same_text(sub, ".");
    let slash = same_text(sub, "/");
    lib.use_sparse && !sub.is_empty() && !dot && !slash
}

/// The clone arguments, as bytes (see [`clone_arguments`]).
pub fn clone_args(lib: &LibraryConfig, tmp_repo: &[u8]) -> (r: Vec<Vec<u8>>)
    ensures
        bytes_list_view(r@) == clone_arguments(lib@, tmp_repo@),
{
    let mut r: Vec<Vec<u8>> = Vec::new();
    r.push(bytes_of("clone"));
    r.push(bytes_of("--depth"));
    r.push(bytes_of("1"));
    if lib.use_sparse {
        r.push(bytes_of("--filter=blob:none"));
        r.push(bytes_of("--sparse"));
    }
    r.push(bytes_of(lib.repo_url.as_str()));
    r.push(vstd::slice::slice_to_vec(tmp_repo));
    assert(bytes_list_view(r@) =~= clone_arguments(lib@, tmp_repo@));
    r
}

/// The sparse-checkout arguments, as bytes (see [`sparse_arguments`]).
pub fn sparse_checkout_args(lib: &LibraryConfig) -> (r: Vec<Vec<u8>>)
    ensures
        bytes_list_view(r@) == sparse_arguments(lib@),
{
    let mut r: Vec<Vec<u8>> = Vec::new();
    r.push(bytes_of("sparse-checkout"));
    r.push(bytes_of("set"));
    r.push(bytes_of(lib.sub_dir.as_str()));
    assert(bytes_list_view(r@) =~= sparse_arguments(lib@));
    r
}

/// The scratch directory, under the system's temporary directory, into which
/// repositories are cloned.
pub open spec fn work_dir_in(temp_dir: Seq<u8>) -> Seq<u8> {
    joined_bytes(temp_dir, utf8("chaosdocs_docs_fetch"@))
}

/// The scratch directory for fetching (see [`work_dir_in`]).
pub fn fetch_work_dir(temp_dir: &[u8]) -> (r: Vec<u8>)
    ensures
        r@ == work_dir_in(temp_dir@),
{
    join_text(temp_dir, "chaosdocs_docs_fetch")
}

/// Where a library's fetch reads and writes: the clone, the stored pages
/// and the directory whose pages are taken.
pub struct FetchPaths {
    /// The clone of the repository, in the scratch directory.
    pub tmp_repo: Vec<u8>,
    /// The library's folder under the storage path.
    pub dst_dir: Vec<u8>,
    /// The library's subdirectory inside the clone.
    pub src_dir: Vec<u8>,
}

/// The step a library's fetch has reached.
#[derive(Debug, Clone, Copy, PartialEq, Eq, Structural)]
pub enum FetchStage {
    /// Waiting for the clone to finish.
    Cloning,
    /// Waiting for the sparse checkout to finish.
    SparseCheckout,
    /// Waiting to learn whether the source directory exists.
    LocatingSource,
    /// Waiting for the pages to be flattened into the library's folder.
    Flattening,
    /// Done: the library was skipped or its pages were stored.
    Finished,
}

/// How a library's fetch ended.
#[derive(Debug, Clone, Copy, PartialEq, Eq, Structural)]
pub enum FetchOutcome {
    /// The clone failed; the library was skipped.
    CloneFailed,
    /// The source directory was missing after the clone; the library was skipped.
    SourceMissing,
    /// The pages were flattened into the library's folder.
    Stored,
}

/// What happened since the last step of a library's fetch.
pub enum FetchEvent {
    /// The last `git` call exited, successfully or not.
    GitExited { success: bool },
    /// Whether the source directory exists.
    SourceChecked { exists: bool },
    /// The pages were flattened.
    Flattened,
}

/// What the caller must do next for a library's fetch.
pub enum FetchAction {
    /// Run `git` with these arguments, inside `cwd` when it is given.
    RunGit { args: Vec<Vec<u8>>, cwd: Option<Vec<u8>> },
    /// Check whether `path` exists; `sparse_failed` tells that the sparse
    /// checkout before it failed (which is reported, not fatal).
    CheckSource { path: Vec<u8>, sparse_failed: bool },
    /// Flatten the Markdown pages of `src` into `dst`.
    Flatten { src: Vec<u8>, dst: Vec<u8> },
    /// Nothing more to do for this library.
    Finish { outcome: FetchOutcome },
}

/// The fetch of one library, driven step by step by the caller.
pub struct LibraryFetch {
    pub library: LibraryConfig,
    pub paths: FetchPaths,
    pub stage: FetchStage,
}

/// The paths of a library's fetch: the clone `tmp_dir/<folder>`, the stored
/// pages `data_dir/<folder>` and the source `<clone>/<sub_dir>`.
pub open spec fn fetch_paths_of(lib: LibrarySpec, tmp_dir: Seq<u8>, data_dir: Seq<u8>) -> (
    Seq<u8>,
    Seq<u8>,
    Seq<u8>,
) {
    let tmp_repo = joined_bytes(tmp_dir, utf8(lib.dst_folder));
    (tmp_repo, joined_bytes(data_dir, utf8(lib.dst_folder)), joined_bytes(tmp_repo, utf8(lib.sub_dir)))
}

/// The view of a fetch's paths.
pub open spec fn paths_view(p: FetchPaths) -> (Seq<u8>, Seq<u8>, Seq<u8>) {
    (p.tmp_repo@, p.dst_dir@, p.src_dir@)
}

/// Whether an event is one that the fetch is waiting for at its stage.
pub open spec fn expects(stage: FetchStage, event: FetchEvent) -> bool {
    match stage {
        FetchStage::Cloning => event is GitExited,
        FetchStage::SparseCheckout => event is GitExited,
        FetchStage::LocatingSource => event is SourceChecked,
        FetchStage::Flattening => event is Flattened,
        FetchStage::Finished => false,
    }
}

impl LibraryFetch {
    /// Starts a library's fetch: the first action is its clone into the
    /// scratch directory.
    pub fn start(library: LibraryConfig, tmp_dir: &[u8], data_dir: &[u8]) -> (r: (LibraryFetch, FetchAction))
        ensures
            r.0.library == library,
            paths_view(r.0.paths) == fetch_paths_of(library@, tmp_dir@, data_dir@),
            r.0.stage == FetchStage::Cloning,
            r.1 matches FetchAction::RunGit { args, cwd } && cwd is None && bytes_list_view(args@)
                == clone_arguments(library@, r.0.paths.tmp_repo@),
    {
        let tmp_repo = join_text(tmp_dir, library.dst_folder.as_str());
        let dst_dir = join_text(data_dir, library.dst_folder.as_str());
        let src_dir = join_text(tmp_repo.as_slice(), library.sub_dir.as_str());
        let args = clone_args(&library, tmp_repo.as_slice());
        let fetch = LibraryFetch {
            library,
            paths: FetchPaths { tmp_repo, dst_dir, src_dir },
            stage: FetchStage::Cloning,
        };
        (fetch, FetchAction::RunGit { args, cwd: None })
    }

    /// Advances the fetch by one event and tells what to do next:
    /// a failed clone ends it; a successful clone is followed by the sparse
    /// checkout when the library wants one, then by the check of the source
    /// directory (a failed sparse checkout is reported but not fatal); a
    /// missing source ends it; an existing one is flattened into the
    /// library's folder, which ends it.
    pub fn advance(&mut self, event: FetchEvent) -> (action: FetchAction)
        requires
            expects(old(self).stage, event),
        ensures
            final(self).library == old(self).library,
            final(self).paths == old(self).paths,
            match (old(self).stage, event) {
                (FetchStage::Cloning, FetchEvent::GitExited { success }) =>
                    if !success {
                        final(self).stage == FetchStage::Finished
                            && action == (FetchAction::Finish { outcome: FetchOutcome::CloneFailed })
                    } else if wants_sparse_checkout(old(self).library@) {
                        final(self).stage == FetchStage::SparseCheckout
                            && (action matches FetchAction::RunGit { args, cwd }
                            && bytes_list_view(args@) == sparse_arguments(old(self).library@)
                            && (cwd matches Some(c) && c@ == old(self).paths.tmp_repo@))
                    } else {
                        final(self).stage == FetchStage::LocatingSource
                            && (action matches FetchAction::CheckSource { path, sparse_failed }
                            && path@ == old(self).paths.src_dir@ && !sparse_failed)
                    },
                (FetchStage::SparseCheckout, FetchEvent::GitExited { success }) =>
                    final(self).stage == FetchStage::LocatingSource
                        && (action matches FetchAction::CheckSource { path, sparse_failed }
                        && path@ == old(self).paths.src_dir@ && sparse_failed == !success),
                (FetchStage::LocatingSource, FetchEvent::SourceChecked { exists }) =>
                    if exists {
                        final(self).stage == FetchStage::Flattening
                            && (action matches FetchAction::Flatten { src, dst }
                            && src@ == old(self).paths.src_dir@ && dst@ == old(self).paths.dst_dir@)
                    } else {
                        final(self).stage == FetchStage::Finished
                            && action == (FetchAction::Finish { outcome: FetchOutcome::SourceMissing })
                    },
                _ =>
                    final(self).stage == FetchStage::Finished
                        && action == (FetchAction::Finish { outcome: FetchOutcome::Stored }),
            },
    {
        match event {
            FetchEvent::GitExited { success } => {
                if self.stage == FetchStage::Cloning {
                    if !success {
                        self.stage = FetchStage::Finished;
                        FetchAction::Finish { outcome: FetchOutcome::CloneFailed }
                    } else if sparse_checkout_wanted(&self.library) {
                        self.stage = FetchStage::SparseCheckout;
                        let args = sparse_checkout_args(&self.library);
                        FetchAction::RunGit { args, cwd: Some(vstd::slice::slice_to_vec(self.paths.tmp_repo.as_slice())) }
                    } else {
                        self.stage = FetchStage::LocatingSource;
                        FetchAction::CheckSource { path: vstd::slice::slice_to_vec(self.paths.src_dir.as_slice()), sparse_failed: false }
                    }
                } else {
                    self.stage = FetchStage::LocatingSource;
                    FetchAction::CheckSource { path: vstd::slice::slice_to_vec(self.paths.src_dir.as_slice()), sparse_failed: !success }
                }
            },
            FetchEvent::SourceChecked { exists } => {
                if exists {
                    self.stage = FetchStage::Flattening;
                    FetchAction::Flatten { src: vstd::slice::slice_to_vec(self.paths.src_dir.as_slice()), dst: vstd::slice::slice_to_vec(self.paths.dst_dir.as_slice()) }
                } else {
                    self.stage = FetchStage::Finished;
                    FetchAction::Finish { outcome: FetchOutcome::SourceMissing }
                }
            },
            FetchEvent::Flattened => {
                self.stage = FetchStage::Finished;
                FetchAction::Finish { outcome: FetchOutcome::Stored }
            },
        }
    }
}

} // verus!
