//! Server configuration: the library list, layered loading and the storage
//! location of fetched documentation.

use vstd::prelude::*;
use crate::paths::{joined_bytes, join_text, utf8, bytes_of};
use crate::text::same_text;

verus! {

/// One documentation library: where to fetch it from and where to store it.
#[derive(Debug, Clone, PartialEq, Eq)]
pub struct LibraryConfig {
    /// URL of the git repository holding the documentation.
    pub repo_url: String,
    /// Subdirectory of the repository to take the pages from.
    pub sub_dir: String,
    /// Folder name under the storage path where the pages are stored.
    pub dst_folder: String,
    /// Whether to clone sparsely (for large repositories).
    pub use_sparse: bool,
}

/// The mathematical value of a [`LibraryConfig`].
#[verifier::ext_equal]
pub struct LibrarySpec {
    pub repo_url: Seq<char>,
    pub sub_dir: Seq<char>,
    pub dst_folder: Seq<char>,
    pub use_sparse: bool,
}

impl View for LibraryConfig {
    type V = LibrarySpec;

    open spec fn view(&self) -> LibrarySpec {
        LibrarySpec {
            repo_url: self.repo_url@,
            sub_dir: self.sub_dir@,
            dst_folder: self.dst_folder@,
            use_sparse: self.use_sparse,
        }
    }
}

/// The root configuration: server settings, reading defaults and libraries.
#[derive(Debug, Clone, PartialEq, Eq)]
pub struct CodexConfig {
    /// HTTP port; when set the server listens over HTTP instead of stdio.
    pub port: Option<u16>,
    /// Default character offset when reading pages.
    pub default_offset: Option<usize>,
    /// Default character limit when reading pages.
    pub default_limit: Option<usize>,
    /// Root directory of the fetched documentation.
    pub storage_path: Option<String>,
    /// `"local"` for a per-instance library, anything else for the shared one.
    pub library_type: Option<String>,
    /// The documentation libraries to manage and serve.
    pub libraries: Vec<LibraryConfig>,
}

/// The mathematical value of a [`CodexConfig`].
#[verifier::ext_equal]
pub struct ConfigSpec {
    pub port: Option<u16>,
    pub default_offset: Option<usize>,
    pub default_limit: Option<usize>,
    pub storage_path: Option<Seq<char>>,
    pub library_type: Option<Seq<char>>,
    pub libraries: Seq<LibrarySpec>,
}

/// The view of an optional string.
pub open spec fn opt_view(o: Option<String>) -> Option<Seq<char>> {
    match o {
        Some(s) => Some(s@),
        None => None,
    }
}

/// The views of a list of libraries.
pub open spec fn libraries_view(v: Seq<LibraryConfig>) -> Seq<LibrarySpec> {
    v.map_values(|l: LibraryConfig| l@)
}

impl View for CodexConfig {
    type V = ConfigSpec;

    open spec fn view(&self) -> ConfigSpec {
        ConfigSpec {
            port: self.port,
            default_offset: self.default_offset,
            default_limit: self.default_limit,
            storage_path: opt_view(self.storage_path),
            library_type: opt_view(self.library_type),
            libraries: libraries_view(self.libraries@),
        }
    }
}

/// A setting given by a later layer replaces the earlier one.
pub open spec fn override_with<T>(earlier: Option<T>, later: Option<T>) -> Option<T> {
    if later is Some {
        later
    } else {
        earlier
    }
}

/// The directory under which the tool keeps its data: `.chaosnexus/chaosnexus-codex`
/// in the home directory, or `.` when no home directory is known.
pub open spec fn codex_base(home: Option<Seq<u8>>) -> Seq<u8> {
    match home {
        Some(h) => joined_bytes(joined_bytes(h, utf8(".chaosnexus"@)), utf8("chaosnexus-codex"@)),
        None => seq![0x2eu8],
    }
}

impl ConfigSpec {
    /// The configuration with nothing set and no libraries.
    pub open spec fn empty() -> ConfigSpec {
        ConfigSpec {
            port: None,
            default_offset: None,
            default_limit: None,
            storage_path: None,
            library_type: None,
            libraries: Seq::empty(),
        }
    }

    /// `self` overlaid with `other`: each setting that `other` gives wins, and
    /// a non-empty library list of `other` replaces the whole list.
    pub open spec fn merge(self, other: ConfigSpec) -> ConfigSpec {
        ConfigSpec {
            port: override_with(self.port, other.port),
            default_offset: override_with(self.default_offset, other.default_offset),
            default_limit: override_with(self.default_limit, other.default_limit),
            storage_path: override_with(self.storage_path, other.storage_path),
            library_type: override_with(self.library_type, other.library_type),
            libraries: if other.libraries.len() > 0 {
                other.libraries
            } else {
                self.libraries
            },
        }
    }

    /// Where fetched documentation is stored, given the user's home directory
    /// (if known, as the bytes of its path) and the instance name from the
    /// environment (if set): the configured path if any; otherwise `data`
    /// under `<home>/.chaosnexus/chaosnexus-codex` (or `.` without a home),
    /// with the instance name in between for a `"local"` library. The result
    /// is the bytes of the path.
    pub open spec fn storage_path_with(
        self,
        home: Option<Seq<u8>>,
        instance: Option<Seq<char>>,
    ) -> Seq<u8> {
        match self.storage_path {
            Some(p) => utf8(p),
            None => {
                let base = codex_base(home);
                if self.library_type == Some("local"@) && instance is Some {
                    joined_bytes(joined_bytes(base, utf8(instance->0)), utf8("data"@))
                } else {
                    joined_bytes(base, utf8("data"@))
                }
            },
        }
    }
}

impl Default for CodexConfig {
    fn default() -> (r: CodexConfig)
        ensures
            r@ == ConfigSpec::empty(),
    {
        let r = CodexConfig {
            port: None,
            default_offset: None,
            default_limit: None,
            storage_path: None,
            library_type: None,
            libraries: Vec::new(),
        };
        assert(r@ =~= ConfigSpec::empty());
        r
    }
}

/// The user's home directory as `directories::BaseDirs::new()` finds it
/// (`$HOME` on Linux), as the bytes of its path exactly (`OsStr`'s encoded
/// bytes, which on Unix are the path's bytes, valid UTF-8 or not), or `None`
/// when no home directory can be determined. The result depends on the
/// process environment; nothing is stated of it.
#[verifier::external_body]
fn home_dir() -> (r: Option<Vec<u8>>) {
    match directories::BaseDirs::new() {
        Some(d) => Some(d.home_dir().as_os_str().as_encoded_bytes().to_vec()),
        None => None,
    }
}

/// The view of an optional byte vector.
pub open spec fn opt_bytes_view(o: Option<Vec<u8>>) -> Option<Seq<u8>> {
    match o {
        Some(b) => Some(b@),
        None => None,
    }
}

impl CodexConfig {
    /// Overlays `other` on this configuration (see [`ConfigSpec::merge`]).
    pub fn merge(&mut self, other: Self)
        ensures
            final(self)@ == old(self)@.merge(other@),
    {
        let CodexConfig { port, default_offset, default_limit, storage_path, library_type, libraries } =
            other;
        if port.is_some() {
            self.port = port;
        }
        if default_offset.is_some() {
            self.default_offset = default_offset;
        }
        if default_limit.is_some() {
            self.default_limit = default_limit;
        }
        if storage_path.is_some() {
            self.storage_path = storage_path;
        }
        if library_type.is_some() {
            self.library_type = library_type;
        }
        if !libraries.is_empty() {
            self.libraries = libraries;
        }
        assert(self@ =~= old(self)@.merge(other@));
    }

    /// Where fetched documentation is stored, given the bytes of the home
    /// directory's path and the instance name (see
    /// [`ConfigSpec::storage_path_with`]); the result is the path's bytes.
    pub fn storage_path_with(&self, home: Option<Vec<u8>>, instance_name: Option<String>) -> (r: Vec<u8>)
        ensures
            r@ == self@.storage_path_with(opt_bytes_view(home), opt_view(instance_name)),
    {
        if let Some(p) = &self.storage_path {
            return bytes_of(p.as_str());
        }
        let base = match home {
            Some(h) => {
                let a = join_text(h.as_slice(), ".chaosnexus");
                join_text(a.as_slice(), "chaosnexus-codex")
            },
            None => {
                let mut b: Vec<u8> = Vec::new();
                b.push(0x2eu8);
                assert(b@ =~= seq![0x2eu8]);
                b
            },
        };
        let is_local = match &self.library_type {
            Some(t) => same_text(t.as_str(), "local"),
            None => false,
        };
        if is_local {
            if let Some(inst) = instance_name {
                let d = join_text(base.as_slice(), inst.as_str());
                return join_text(d.as_slice(), "data");
            }
        }
        join_text(base.as_slice(), "data")
    }

    /// Where fetched documentation is stored, as the bytes of its path: the
    /// home directory is looked up with the `directories` crate;
    /// `instance_name` is the value of the `CHAOS_INSTANCE_NAME` environment
    /// variable, if set.
    pub fn resolved_storage_path(&self, instance_name: Option<String>) -> (r: Vec<u8>)
        ensures
            exists|home: Option<Seq<u8>>|
                r@ == #[trigger] self@.storage_path_with(home, opt_view(instance_name)),
            self@.storage_path is Some ==> r@ == utf8(self@.storage_path->0),
    {
        let home = home_dir();
        let r = self.storage_path_with(home, instance_name);
        assert(r@ == self@.storage_path_with(opt_bytes_view(home), opt_view(instance_name)));
        r
    }
}

/// Each setting that a later layer gives replaces the earlier layer's, and
/// each setting it leaves unset keeps the earlier one; a later layer with
/// libraries replaces the whole list, one without keeps it.
pub proof fn lemma_merge_later_layer_wins(c: ConfigSpec, o: ConfigSpec)
    ensures
        o.port is Some ==> c.merge(o).port == o.port,
        o.port is None ==> c.merge(o).port == c.port,
        o.default_offset is Some ==> c.merge(o).default_offset == o.default_offset,
        o.default_offset is None ==> c.merge(o).default_offset == c.default_offset,
        o.default_limit is Some ==> c.merge(o).default_limit == o.default_limit,
        o.default_limit is None ==> c.merge(o).default_limit == c.default_limit,
        o.storage_path is Some ==> c.merge(o).storage_path == o.storage_path,
        o.storage_path is None ==> c.merge(o).storage_path == c.storage_path,
        o.library_type is Some ==> c.merge(o).library_type == o.library_type,
        o.library_type is None ==> c.merge(o).library_type == c.library_type,
        o.libraries.len() > 0 ==> c.merge(o).libraries == o.libraries,
        o.libraries.len() == 0 ==> c.merge(o).libraries == c.libraries,
{
}

/// Where fetched documentation goes: a configured storage path wins over
/// everything; otherwise the directory lies under
/// `<home>/.chaosnexus/chaosnexus-codex`, and only the `local` library type
/// puts it under a per-instance directory, so for any other type the instance
/// name makes no difference.
pub proof fn lemma_storage_path_layout(c: ConfigSpec, home: Option<Seq<u8>>, instance: Option<Seq<char>>)
    ensures
        c.storage_path matches Some(p) ==> c.storage_path_with(home, instance) == utf8(p),
        c.storage_path is None && c.library_type != Some("local"@) ==> c.storage_path_with(home, instance)
            == c.storage_path_with(home, None),
        c.storage_path is None && (c.library_type != Some("local"@) || instance is None)
            ==> c.storage_path_with(home, instance) == joined_bytes(codex_base(home), utf8("data"@)),
        c.storage_path is None && c.library_type == Some("local"@) && instance is Some
            ==> c.storage_path_with(home, instance) == joined_bytes(
            joined_bytes(codex_base(home), utf8(instance->0)),
            utf8("data"@),
        ),
{
}

/// Overlaying the empty configuration, on either side, changes nothing.
pub proof fn lemma_merge_empty_identity(c: ConfigSpec)
    ensures
        c.merge(ConfigSpec::empty()) == c,
        ConfigSpec::empty().merge(c) == c,
{
    assert(c.merge(ConfigSpec::empty()) =~= c);
    assert(ConfigSpec::empty().merge(c) =~= c);
}

/// Overlaying is associative: layering `b` then `c` on `a` is the same as
/// layering the combination of `b` and `c` on `a`.
pub proof fn lemma_merge_associative(a: ConfigSpec, b: ConfigSpec, c: ConfigSpec)
    ensures
        a.merge(b).merge(c) == a.merge(b.merge(c)),
{
    assert(a.merge(b).merge(c) =~= a.merge(b.merge(c)));
}

/// Overlaying a configuration on itself changes nothing.
pub proof fn lemma_merge_idempotent(c: ConfigSpec)
    ensures
        c.merge(c) == c,
{
    assert(c.merge(c) =~= c);
}

/// The view of an optional configuration.
pub open spec fn opt_config_view(o: Option<CodexConfig>) -> Option<ConfigSpec> {
    match o {
        Some(c) => Some(c@),
        None => None,
    }
}

/// The first configuration that could be loaded among the candidates of one
/// group, in order.
pub open spec fn first_found(candidates: Seq<Option<ConfigSpec>>) -> Option<ConfigSpec>
    decreases candidates.len(),
{
    if candidates.len() == 0 {
        None
    } else if candidates[0] is Some {
        candidates[0]
    } else {
        first_found(candidates.drop_first())
    }
}

/// The configuration made by overlaying, in order, the configuration found in
/// each group on the empty configuration; a group where none was found adds
/// nothing.
pub open spec fn layered(groups: Seq<Seq<Option<ConfigSpec>>>) -> ConfigSpec
    decreases groups.len(),
{
    if groups.len() == 0 {
        ConfigSpec::empty()
    } else {
        let below = layered(groups.drop_last());
        match first_found(groups.last()) {
            Some(c) => below.merge(c),
            None => below,
        }
    }
}

/// The two configuration directories under a home directory.
pub open spec fn home_config_dirs(home: Seq<u8>) -> Seq<Seq<u8>> {
    seq![
        joined_bytes(joined_bytes(home, utf8(".chaosnexus"@)), utf8("codex"@)),
        joined_bytes(joined_bytes(home, utf8(".chaosnexus"@)), utf8("chaosnexus-codex"@)),
    ]
}

/// The shared configuration files under a home directory, in search order.
pub open spec fn home_candidates(home: Seq<u8>) -> Seq<Seq<u8>> {
    let d = home_config_dirs(home);
    seq![
        joined_bytes(d[0], utf8("chaosnexus-codex.toml"@)),
        joined_bytes(d[0], utf8("codex.toml"@)),
        joined_bytes(d[0], utf8("config.toml"@)),
        joined_bytes(d[1], utf8("chaosnexus-codex.toml"@)),
        joined_bytes(d[1], utf8("codex.toml"@)),
        joined_bytes(d[1], utf8("config.toml"@)),
    ]
}

/// The per-instance configuration files under a home directory, in search order.
pub open spec fn instance_candidates(home: Seq<u8>, instance: Seq<char>) -> Seq<Seq<u8>> {
    let d = home_config_dirs(home);
    seq![
        joined_bytes(joined_bytes(d[0], utf8(instance)), utf8("chaosnexus-codex.toml"@)),
        joined_bytes(joined_bytes(d[0], utf8(instance)), utf8("config.toml"@)),
        joined_bytes(joined_bytes(d[1], utf8(instance)), utf8("chaosnexus-codex.toml"@)),
        joined_bytes(joined_bytes(d[1], utf8(instance)), utf8("config.toml"@)),
    ]
}

/// The configuration files in the working directory, in search order.
pub open spec fn cwd_candidates(cwd: Seq<u8>) -> Seq<Seq<u8>> {
    seq![
        joined_bytes(cwd, utf8("chaosnexus-codex.toml"@)),
        joined_bytes(cwd, utf8("codex.toml"@)),
        joined_bytes(cwd, utf8("config.toml"@)),
    ]
}

/// The groups of configuration files searched when loading, in layering
/// order: the shared files under the home directory (when it is known), the
/// per-instance files (when the home directory and an instance name are
/// known), then the files of the working directory. Paths are bytes.
pub open spec fn search_groups(
    home: Option<Seq<u8>>,
    instance: Option<Seq<char>>,
    cwd: Seq<u8>,
) -> Seq<Seq<Seq<u8>>> {
    match home {
        Some(h) => match instance {
            Some(i) => seq![home_candidates(h), instance_candidates(h, i), cwd_candidates(cwd)],
            None => seq![home_candidates(h), cwd_candidates(cwd)],
        },
        None => seq![cwd_candidates(cwd)],
    }
}

/// The views of a list of lists of paths.
pub open spec fn path_groups_view(v: Seq<Vec<Vec<u8>>>) -> Seq<Seq<Seq<u8>>> {
    v.map_values(|g: Vec<Vec<u8>>| g@.map_values(|p: Vec<u8>| p@))
}

fn home_group(home: &[u8]) -> (r: Vec<Vec<u8>>)
    ensures
        r@.map_values(|p: Vec<u8>| p@) == home_candidates(home@),
{
    let root = join_text(home, ".chaosnexus");
    let d0 = join_text(root.as_slice(), "codex");
    let d1 = join_text(root.as_slice(), "chaosnexus-codex");
    let mut r: Vec<Vec<u8>> = Vec::new();
    r.push(join_text(d0.as_slice(), "chaosnexus-codex.toml"));
    r.push(join_text(d0.as_slice(), "codex.toml"));
    r.push(join_text(d0.as_slice(), "config.toml"));
    r.push(join_text(d1.as_slice(), "chaosnexus-codex.toml"));
    r.push(join_text(d1.as_slice(), "codex.toml"));
    r.push(join_text(d1.as_slice(), "config.toml"));
    assert(r@.map_values(|p: Vec<u8>| p@) =~= home_candidates(home@));
    r
}

fn instance_group(home: &[u8], instance: &str) -> (r: Vec<Vec<u8>>)
    ensures
        r@.map_values(|p: Vec<u8>| p@) == instance_candidates(home@, instance@),
{
    let root = join_text(home, ".chaosnexus");
    let d0 = join_text(root.as_slice(), "codex");
    let d1 = join_text(root.as_slice(), "chaosnexus-codex");
    let i0 = join_text(d0.as_slice(), instance);
    let i1 = join_text(d1.as_slice(), instance);
    let mut r: Vec<Vec<u8>> = Vec::new();
    r.push(join_text(i0.as_slice(), "chaosnexus-codex.toml"));
    r.push(join_text(i0.as_slice(), "config.toml"));
    r.push(join_text(i1.as_slice(), "chaosnexus-codex.toml"));
    r.push(join_text(i1.as_slice(), "config.toml"));
    assert(r@.map_values(|p: Vec<u8>| p@) =~= instance_candidates(home@, instance@));
    r
}

fn cwd_group(cwd: &[u8]) -> (r: Vec<Vec<u8>>)
    ensures
        r@.map_values(|p: Vec<u8>| p@) == cwd_candidates(cwd@),
{
    let mut r: Vec<Vec<u8>> = Vec::new();
    r.push(join_text(cwd, "chaosnexus-codex.toml"));
    r.push(join_text(cwd, "codex.toml"));
    r.push(join_text(cwd, "config.toml"));
    assert(r@.map_values(|p: Vec<u8>| p@) =~= cwd_candidates(cwd@));
    r
}

/// The configuration files to search, group by group, as path bytes (see
/// [`search_groups`]).
pub fn config_search_groups(home: Option<Vec<u8>>, instance_name: Option<String>, cwd: &[u8]) -> (r: Vec<
    Vec<Vec<u8>>,
>)
    ensures
        path_groups_view(r@) == search_groups(opt_bytes_view(home), opt_view(instance_name), cwd@),
{
    let mut r: Vec<Vec<Vec<u8>>> = Vec::new();
    match home {
        Some(h) => {
            r.push(home_group(h.as_slice()));
            if let Some(i) = instance_name {
                r.push(instance_group(h.as_slice(), i.as_str()));
            }
        },
        None => {},
    }
    r.push(cwd_group(cwd));
    assert(path_groups_view(r@) =~= search_groups(opt_bytes_view(home), opt_view(instance_name), cwd@));
    r
}

/// The configuration files to search for this user: the home directory is
/// looked up with the `directories` crate (see [`search_groups`]).
pub fn search_groups_for_user(instance_name: Option<String>, cwd: &[u8]) -> (r: Vec<Vec<Vec<u8>>>)
    ensures
        exists|home: Option<Seq<u8>>|
            path_groups_view(r@) == #[trigger] search_groups(home, opt_view(instance_name), cwd@),
{
    let home = home_dir();
    let r = config_search_groups(home, instance_name, cwd);
    assert(path_groups_view(r@) == search_groups(opt_bytes_view(home), opt_view(instance_name), cwd@));
    r
}

/// The first configuration among the load results of one group of candidate
/// files (`None` where a file was missing, unreadable or not valid TOML).
pub fn first_loaded(candidates: Vec<Option<CodexConfig>>) -> (r: Option<CodexConfig>)
    ensures
        opt_config_view(r) == first_found(candidates@.map_values(|c: Option<CodexConfig>| opt_config_view(c))),
{
    let ghost all = candidates@.map_values(|c: Option<CodexConfig>| opt_config_view(c));
    let ghost mut skipped: int = 0;
    assert(all.skip(0) =~= all);
    for c in it: candidates.into_iter()
        invariant
            all == candidates@.map_values(|c: Option<CodexConfig>| opt_config_view(c)),
            it.seq() == candidates@,
            skipped == it.index(),
            first_found(all) == first_found(all.skip(skipped)),
    {
        proof {
            assert(all.skip(skipped)[0] == opt_config_view(c));
            assert(all.skip(skipped).drop_first() =~= all.skip(skipped + 1));
        }
        if c.is_some() {
            return c;
        }
        proof {
            skipped = skipped + 1;
        }
    }
    proof {
        assert(all.skip(skipped) =~= Seq::<Option<ConfigSpec>>::empty());
    }
    None
}

/// The view of the load results of several groups.
pub open spec fn loaded_groups_view(groups: Seq<Vec<Option<CodexConfig>>>) -> Seq<Seq<Option<ConfigSpec>>> {
    groups.map_values(|g: Vec<Option<CodexConfig>>| g@.map_values(|c: Option<CodexConfig>| opt_config_view(c)))
}

impl CodexConfig {
    /// The loaded configuration: starting from the default, the first
    /// configuration found in each group is overlaid in turn (see [`layered`]).
    pub fn from_layers(groups: Vec<Vec<Option<CodexConfig>>>) -> (r: CodexConfig)
        ensures
            r@ == layered(loaded_groups_view(groups@)),
    {
        let ghost all = loaded_groups_view(groups@);
        let mut acc = CodexConfig::default();
        for g in it: groups.into_iter()
            invariant
                all == loaded_groups_view(groups@),
                it.seq() == groups@,
                acc@ == layered(all.take(it.index() as int)),
        {
            let ghost k = it.index();
            proof {
                assert(all.take(k + 1).drop_last() =~= all.take(k as int));
                assert(all.take(k + 1).last() == g@.map_values(|c: Option<CodexConfig>| opt_config_view(c)));
            }
            match first_loaded(g) {
                Some(c) => acc.merge(c),
                None => {},
            }
        }
        proof {
            assert(all.take(all.len() as int) =~= all);
        }
        acc
    }
}

/// The libraries whose destination folder is not `folder`, in their order.
pub open spec fn without_folder(libs: Seq<LibrarySpec>, folder: Seq<char>) -> Seq<LibrarySpec>
    decreases libs.len(),
{
    if libs.len() == 0 {
        Seq::empty()
    } else {
        let rest = without_folder(libs.drop_last(), folder);
        if libs.last().dst_folder == folder {
            rest
        } else {
            rest.push(libs.last())
        }
    }
}

/// Whether some library is stored under `folder`.
pub open spec fn has_folder(libs: Seq<LibrarySpec>, folder: Seq<char>) -> bool {
    exists|i: int| 0 <= i < libs.len() && #[trigger] libs[i].dst_folder == folder
}

impl ConfigSpec {
    /// The configuration with `lib` added, replacing any library stored under
    /// the same folder; the new library comes last.
    pub open spec fn with_library(self, lib: LibrarySpec) -> ConfigSpec {
        ConfigSpec { libraries: without_folder(self.libraries, lib.dst_folder).push(lib), ..self }
    }

    /// The configuration without the libraries stored under `folder`.
    pub open spec fn without_library(self, folder: Seq<char>) -> ConfigSpec {
        ConfigSpec { libraries: without_folder(self.libraries, folder), ..self }
    }
}

/// Removing the libraries of a folder leaves none stored there, never adds
/// any, and shortens the list exactly when one was stored there.
pub proof fn lemma_without_folder(libs: Seq<LibrarySpec>, folder: Seq<char>)
    ensures
        forall|i: int|
            0 <= i < without_folder(libs, folder).len() ==> #[trigger] without_folder(
                libs,
                folder,
            )[i].dst_folder != folder,
        without_folder(libs, folder).len() <= libs.len(),
        (without_folder(libs, folder).len() == libs.len()) <==> !has_folder(libs, folder),
        !has_folder(libs, folder) ==> without_folder(libs, folder) == libs,
    decreases libs.len(),
{
    if libs.len() > 0 {
        let init = libs.drop_last();
        lemma_without_folder(init, folder);
        if has_folder(init, folder) {
            let i = choose|i: int| 0 <= i < init.len() && #[trigger] init[i].dst_folder == folder;
            assert(libs[i].dst_folder == folder);
        }
        if has_folder(libs, folder) && libs.last().dst_folder != folder {
            let i = choose|i: int| 0 <= i < libs.len() && #[trigger] libs[i].dst_folder == folder;
            assert(init[i].dst_folder == folder);
        }
        if libs.last().dst_folder == folder {
            assert(libs[libs.len() - 1].dst_folder == folder);
        }
        if !has_folder(libs, folder) {
            assert forall|i: int| 0 <= i < init.len() implies #[trigger] init[i].dst_folder != folder by {
                assert(libs[i] == init[i]);
            }
            assert(init.push(libs.last()) =~= libs);
        }
    } else {
        assert(without_folder(libs, folder) =~= libs);
    }
}

/// After adding a library, it is the last one and the only one stored under
/// its folder; the libraries of other folders are kept in order.
pub proof fn lemma_with_library_unique(c: ConfigSpec, lib: LibrarySpec)
    ensures
        c.with_library(lib).libraries.last() == lib,
        forall|i: int|
            0 <= i < c.with_library(lib).libraries.len() - 1 ==> #[trigger] c.with_library(
                lib,
            ).libraries[i].dst_folder != lib.dst_folder,
        c.with_library(lib).libraries.drop_last() == without_folder(c.libraries, lib.dst_folder),
{
    lemma_without_folder(c.libraries, lib.dst_folder);
    let w = without_folder(c.libraries, lib.dst_folder);
    assert(w.push(lib).drop_last() =~= w);
    assert forall|i: int| 0 <= i < w.len() implies #[trigger] w.push(lib)[i].dst_folder != lib.dst_folder by {
        assert(w.push(lib)[i] == w[i]);
    }
}

/// Removing a folder right after adding a library to it gives what removing
/// the folder alone gives: the addition leaves no trace.
pub proof fn lemma_remove_after_add(c: ConfigSpec, lib: LibrarySpec)
    ensures
        c.with_library(lib).without_library(lib.dst_folder) == c.without_library(lib.dst_folder),
        has_folder(c.with_library(lib).libraries, lib.dst_folder),
{
    let w = without_folder(c.libraries, lib.dst_folder);
    let p = w.push(lib);
    assert(p.drop_last() =~= w);
    lemma_without_folder(c.libraries, lib.dst_folder);
    lemma_without_folder(w, lib.dst_folder);
    assert(without_folder(p, lib.dst_folder) == without_folder(w, lib.dst_folder));
    assert(without_folder(w, lib.dst_folder) == w);
    assert(p[p.len() - 1].dst_folder == lib.dst_folder);
    assert(c.with_library(lib).without_library(lib.dst_folder) =~= c.without_library(lib.dst_folder));
}

fn retain_other_folders(libs: Vec<LibraryConfig>, folder: &str) -> (r: Vec<LibraryConfig>)
    ensures
        libraries_view(r@) == without_folder(libraries_view(libs@), folder@),
{
    let ghost all = libraries_view(libs@);
    let mut out: Vec<LibraryConfig> = Vec::new();
    for l in it: libs.into_iter()
        invariant
            all == libraries_view(libs@),
            it.seq() == libs@,
            libraries_view(out@) == without_folder(all.take(it.index() as int), folder@),
    {
        let ghost k = it.index();
        proof {
            assert(all.take(k + 1).drop_last() =~= all.take(k as int));
            assert(all.take(k + 1).last() == l@);
        }
        if !same_text(l.dst_folder.as_str(), folder) {
            let ghost before = out@;
            out.push(l);
            assert(libraries_view(out@) =~= libraries_view(before).push(l@));
        }
    }
    proof {
        assert(all.take(all.len() as int) =~= all);
    }
    out
}

impl CodexConfig {
    /// Adds a library, dropping any library already stored under the same
    /// destination folder (see [`ConfigSpec::with_library`]).
    pub fn upsert_library(&mut self, library: LibraryConfig)
        ensures
            final(self)@ == old(self)@.with_library(library@),
    {
        let mut libs: Vec<LibraryConfig> = Vec::new();
        std::mem::swap(&mut libs, &mut self.libraries);
        let mut kept = retain_other_folders(libs, library.dst_folder.as_str());
        let ghost lv = library@;
        kept.push(library);
        self.libraries = kept;
        assert(self@ =~= old(self)@.with_library(lv));
    }

    /// Drops the libraries stored under `dst_folder`; tells whether any was.
    pub fn remove_library(&mut self, dst_folder: &str) -> (removed: bool)
        ensures
            final(self)@ == old(self)@.without_library(dst_folder@),
            removed == has_folder(old(self)@.libraries, dst_folder@),
            removed == (final(self)@.libraries.len() != old(self)@.libraries.len()),
    {
        let mut libs: Vec<LibraryConfig> = Vec::new();
        std::mem::swap(&mut libs, &mut self.libraries);
        let before = libs.len();
        let kept = retain_other_folders(libs, dst_folder);
        let removed = kept.len() != before;
        self.libraries = kept;
        proof {
            lemma_without_folder(old(self)@.libraries, dst_folder@);
        }
        assert(self@ =~= old(self)@.without_library(dst_folder@));
        removed
    }
}

} // verus!
