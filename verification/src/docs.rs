//! The documentation store as the server sees it: library names, pages,
//! search, paged reading and resources.

use vstd::prelude::*;
use crate::paths::{is_markdown_path, has_markdown_extension, strings_view, char_vecs_view, split_on, split_text, strings_of};
use crate::text::{
    chars_of, compare_chars, text_less, lemma_text_less_transitive, concat, to_lowercase,
    unicode_lowercase, text_contains, contains_text, occurs_at, decimal, decimal_text, starts_with_text,
    text_starts_with,
};
use crate::json::{to_json_array, json_array_text};
use vstd::string::StrSliceExecFns;

verus! {

/// The request handler's reading defaults.
#[derive(Debug, Clone, Copy, PartialEq, Eq)]
pub struct Handler {
    /// Character offset used when a read request gives none.
    pub default_offset: usize,
    /// Character limit used when a read request gives none.
    pub default_limit: usize,
}

impl Handler {
    /// A handler with the given reading defaults.
    pub fn new(default_offset: usize, default_limit: usize) -> (r: Self)
        ensures
            r.default_offset == default_offset,
            r.default_limit == default_limit,
    {
        Handler { default_offset, default_limit }
    }
}

/// One entry of a directory listing.
#[derive(Debug, Clone, PartialEq, Eq)]
pub struct DirEntryInfo {
    /// The entry's file name.
    pub name: String,
    /// Whether the entry is a regular file (following symbolic links).
    pub is_file: bool,
    /// Whether the entry is a directory (not following symbolic links).
    pub is_dir: bool,
}

/// Whether a list of texts is in strictly increasing order (so without
/// repetitions).
pub open spec fn strictly_sorted(s: Seq<Seq<char>>) -> bool {
    forall|i: int, j: int| 0 <= i < j < s.len() ==> text_less(#[trigger] s[i], #[trigger] s[j])
}

/// Whether `name` is the name of a directory in the listing.
pub open spec fn is_dir_name(entries: Seq<DirEntryInfo>, name: Seq<char>) -> bool {
    exists|i: int| 0 <= i < entries.len() && #[trigger] entries[i].is_dir && entries[i].name@ == name
}

pub(crate) fn insert_sorted(keys: &mut Vec<Vec<char>>, x: Vec<char>)
    requires
        strictly_sorted(char_vecs_view(old(keys)@)),
    ensures
        strictly_sorted(char_vecs_view(final(keys)@)),
        forall|t: Seq<char>|
            char_vecs_view(final(keys)@).contains(t) <==> (char_vecs_view(old(keys)@).contains(t)
                || t == x@),
{
    let ghost before = char_vecs_view(keys@);
    let mut p: usize = 0;
    let mut stop = false;
    while p < keys.len() && !stop
        invariant
            before == char_vecs_view(keys@),
            strictly_sorted(before),
            p <= keys@.len(),
            forall|i: int| 0 <= i < p ==> text_less(#[trigger] before[i], x@),
            stop ==> p < keys@.len() && text_less(x@, before[p as int]),
        decreases keys@.len() - p, if stop { 0int } else { 1int },
    {
        match compare_chars(&keys[p], &x) {
            Some(true) => {
                p = p + 1;
            },
            None => {
                assert(before[p as int] == x@);
                assert forall|t: Seq<char>| before.contains(t) <==> (before.contains(t) || t == x@) by {
                    if t == x@ {
                        assert(before[p as int] == t);
                    }
                }
                return;
            },
            Some(false) => {
                stop = true;
            },
        }
    }
    proof {
        assert forall|j: int| p <= j < before.len() implies text_less(x@, #[trigger] before[j]) by {
            assert(text_less(x@, before[p as int]));
            if j > p {
                assert(text_less(before[p as int], before[j]));
                lemma_text_less_transitive(x@, before[p as int], before[j]);
            }
        }
    }
    let ghost xv = x@;
    keys.insert(p, x);
    let ghost after = char_vecs_view(keys@);
    proof {
        assert(after =~= before.insert(p as int, xv));
        assert forall|i: int, j: int| 0 <= i < j < after.len() implies text_less(
            #[trigger] after[i],
            #[trigger] after[j],
        ) by {
            if j < p {
                assert(after[i] == before[i] && after[j] == before[j]);
            } else if j == p {
                assert(after[i] == before[i]);
            } else if i < p {
                assert(after[i] == before[i] && after[j] == before[j - 1]);
                lemma_text_less_transitive(before[i], xv, before[j - 1]);
            } else if i == p {
                assert(after[j] == before[j - 1]);
            } else {
                assert(after[i] == before[i - 1] && after[j] == before[j - 1]);
            }
        }
        assert forall|t: Seq<char>| after.contains(t) <==> (before.contains(t) || t == xv) by {
            if after.contains(t) {
                let k = choose|k: int| 0 <= k < after.len() && after[k] == t;
                if k < p {
                    assert(before[k] == t);
                } else if k > p {
                    assert(before[k - 1] == t);
                }
            }
            if before.contains(t) {
                let k = choose|k: int| 0 <= k < before.len() && before[k] == t;
                if k < p {
                    assert(after[k] == t);
                } else {
                    assert(after[k + 1] == t);
                }
            }
            if t == xv {
                assert(after[p as int] == t);
            }
        }
    }
}

/// The names of the libraries in the storage directory: the names of its
/// directories, in increasing order and each once (the server's library
/// list).
pub fn library_names(entries: &Vec<DirEntryInfo>) -> (r: Vec<String>)
    ensures
        strictly_sorted(strings_view(r@)),
        forall|t: Seq<char>| strings_view(r@).contains(t) <==> is_dir_name(entries@, t),
{
    let mut keys: Vec<Vec<char>> = Vec::new();
    for i in 0..entries.len()
        invariant
            strictly_sorted(char_vecs_view(keys@)),
            forall|t: Seq<char>|
                char_vecs_view(keys@).contains(t) <==> is_dir_name(entries@.take(i as int), t),
    {
        let ghost prev = char_vecs_view(keys@);
        if entries[i].is_dir {
            let x = chars_of(entries[i].name.as_str());
            insert_sorted(&mut keys, x);
        }
        assert forall|t: Seq<char>|
            char_vecs_view(keys@).contains(t) <==> is_dir_name(entries@.take(i + 1), t) by {
            let sub = entries@.take(i + 1);
            assert(sub[i as int] == entries@[i as int]);
            if is_dir_name(entries@.take(i as int), t) {
                let k = choose|k: int|
                    0 <= k < i && #[trigger] entries@.take(i as int)[k].is_dir
                        && entries@.take(i as int)[k].name@ == t;
                assert(sub[k] == entries@.take(i as int)[k]);
            }
            if is_dir_name(sub, t) {
                let k = choose|k: int| 0 <= k < i + 1 && #[trigger] sub[k].is_dir && sub[k].name@ == t;
                if k < i {
                    assert(entries@.take(i as int)[k] == sub[k]);
                }
            }
        }
    }
    assert(entries@.take(entries@.len() as int) =~= entries@);
    strings_of(&keys)
}

/// The pages of a library directory: the names, in listing order, of its
/// files whose name has a Markdown extension. (A listing's entry names are
/// single components, so the extension of the name is that of the entry's
/// path.)
pub open spec fn pages_of(entries: Seq<DirEntryInfo>) -> Seq<Seq<char>>
    decreases entries.len(),
{
    if entries.len() == 0 {
        Seq::empty()
    } else {
        let e = entries.last();
        let before = pages_of(entries.drop_last());
        if e.is_file && is_markdown_path(e.name@) {
            before.push(e.name@)
        } else {
            before
        }
    }
}

/// The pages of a library directory, given its listing (see [`pages_of`]).
pub fn select_pages(entries: &Vec<DirEntryInfo>) -> (r: Vec<String>)
    ensures
        strings_view(r@) == pages_of(entries@),
{
    let mut out: Vec<String> = Vec::new();
    for i in 0..entries.len()
        invariant
            strings_view(out@) == pages_of(entries@.take(i as int)),
    {
        assert(entries@.take(i + 1).drop_last() =~= entries@.take(i as int));
        assert(entries@.take(i + 1).last() == entries@[i as int]);
        let e = &entries[i];
        if e.is_file && has_markdown_extension(e.name.as_str()) {
            let ghost prev = out@;
            out.push(e.name.clone());
            assert(strings_view(out@) =~= strings_view(prev).push(e.name@));
        }
    }
    assert(entries@.take(entries@.len() as int) =~= entries@);
    out
}

/// Whether a page name matches a search query: the query, lowercased, occurs
/// in the page name, lowercased.
pub open spec fn page_matches(page: Seq<char>, query: Seq<char>) -> bool {
    contains_text(unicode_lowercase(page), unicode_lowercase(query))
}

/// The pages that match a query, in their order.
pub open spec fn matching_pages(pages: Seq<Seq<char>>, query: Seq<char>) -> Seq<Seq<char>>
    decreases pages.len(),
{
    if pages.len() == 0 {
        Seq::empty()
    } else {
        let before = matching_pages(pages.drop_last(), query);
        if page_matches(pages.last(), query) {
            before.push(pages.last())
        } else {
            before
        }
    }
}

/// The pages whose lowercased name contains the lowercased query
/// (see [`matching_pages`]).
pub fn search_pages(pages: &Vec<String>, query: &str) -> (r: Vec<String>)
    ensures
        strings_view(r@) == matching_pages(strings_view(pages@), query@),
        query@.len() == 0 ==> strings_view(r@) == strings_view(pages@),
        strings_view(r@) == strings_view(pages@).filter(|p: Seq<char>| page_matches(p, query@)),
{
    proof {
        lemma_search_keeps_every_match(strings_view(pages@), query@);
    }
    let q = to_lowercase(query);
    proof {
        if query@.len() == 0 {
            lemma_empty_query_matches_all(strings_view(pages@), query@);
        }
    }
    let ghost all = strings_view(pages@);
    let mut out: Vec<String> = Vec::new();
    for i in 0..pages.len()
        invariant
            all == strings_view(pages@),
            q@ == unicode_lowercase(query@),
            strings_view(out@) == matching_pages(all.take(i as int), query@),
    {
        assert(all.take(i + 1).drop_last() =~= all.take(i as int));
        assert(all.take(i + 1).last() == pages@[i as int]@);
        let lowered = to_lowercase(pages[i].as_str());
        if text_contains(lowered.as_str(), q.as_str()) {
            let ghost prev = out@;
            out.push(pages[i].clone());
            assert(strings_view(out@) =~= strings_view(prev).push(pages@[i as int]@));
        }
    }
    assert(all.take(all.len() as int) =~= all);
    out
}

/// The reply to a listing or search in a library that has no pages.
pub open spec fn library_missing_text(library: Seq<char>) -> Seq<char> {
    "Error: Library '"@ + library + "' not found or empty"@
}

fn library_missing(library: &str) -> (r: String)
    ensures
        r@ == library_missing_text(library@),
{
    let a = concat("Error: Library '", library);
    concat(a.as_str(), "' not found or empty")
}

/// The reply to `list_pages`: the library's pages as a JSON array, or an
/// error text when the library has none.
pub fn list_pages_reply(library: &str, pages: &Vec<String>) -> (r: String)
    ensures
        r@ == (if pages@.len() == 0 {
            library_missing_text(library@)
        } else {
            json_array_text(strings_view(pages@))
        }),
{
    if pages.len() == 0 {
        library_missing(library)
    } else {
        to_json_array(pages)
    }
}

/// The reply to `search_docs`: the matching pages as a JSON array (possibly
/// empty), or an error text when the library has no pages at all.
pub fn search_docs_reply(library: &str, pages: &Vec<String>, query: &str) -> (r: String)
    ensures
        r@ == (if pages@.len() == 0 {
            library_missing_text(library@)
        } else {
            json_array_text(matching_pages(strings_view(pages@), query@))
        }),
{
    if pages.len() == 0 {
        library_missing(library)
    } else {
        let found = search_pages(pages, query);
        to_json_array(&found)
    }
}

/// The first character position of a page window.
pub open spec fn window_start(len: int, offset: int) -> int {
    if offset < len {
        offset
    } else {
        len
    }
}

/// The end (exclusive) of a page window.
pub open spec fn window_end(len: int, offset: int, limit: int) -> int {
    let start = window_start(len, offset);
    if start + limit < len {
        start + limit
    } else {
        len
    }
}

/// The part of a document shown by a read: at most `limit` characters from
/// character `offset` on (nothing when the offset is past the end).
pub open spec fn page_window(content: Seq<char>, offset: int, limit: int) -> Seq<char> {
    content.subrange(window_start(content.len() as int, offset), window_end(content.len() as int, offset, limit))
}

/// The note appended to a read that stops before the end of the document;
/// it gives the offset at which the next read continues.
pub open spec fn truncation_note(next: nat) -> Seq<char> {
    "\n\n...[TRUNCATED: Document has more content. Use offset="@ + decimal_text(next)
        + " to read next chunk.]"@
}

/// The reply to a read of a page that is missing or empty.
pub open spec fn page_missing_text(library: Seq<char>, page: Seq<char>) -> Seq<char> {
    "Error: Page '"@ + page + "' in library '"@ + library + "' not found"@
}

/// The reply to `read_doc_page` for a document: an error text when it is
/// empty; otherwise the window, followed by the truncation note when the
/// document goes on past the window.
pub open spec fn read_reply_text(
    library: Seq<char>,
    page: Seq<char>,
    content: Seq<char>,
    offset: nat,
    limit: nat,
) -> Seq<char> {
    if content.len() == 0 {
        page_missing_text(library, page)
    } else if offset + limit < content.len() {
        page_window(content, offset as int, limit as int) + truncation_note(offset + limit)
    } else {
        page_window(content, offset as int, limit as int)
    }
}

/// The reply to `read_doc_page`, given the page's content (empty when it
/// could not be read) and the offset and limit in characters (see
/// [`read_reply_text`]).
pub fn read_doc_page_reply(library: &str, page: &str, content: &str, offset: usize, limit: usize) -> (r:
    String)
    ensures
        r@ == read_reply_text(library@, page@, content@, offset as nat, limit as nat),
{
    let n = content.unicode_len();
    if n == 0 {
        let a = concat("Error: Page '", page);
        let b = concat(a.as_str(), "' in library '");
        let c = concat(b.as_str(), library);
        return concat(c.as_str(), "' not found");
    }
    let start = if offset < n { offset } else { n };
    let end = if limit < n - start { start + limit } else { n };
    let window = content.substring_char(start, end);
    if end < n {
        let next = offset + limit;
        let number = decimal(next as u64);
        let a = concat(window, "\n\n...[TRUNCATED: Document has more content. Use offset=");
        let b = concat(a.as_str(), number.as_str());
        let r = concat(b.as_str(), " to read next chunk.]");
        assert(r@ =~= read_reply_text(library@, page@, content@, offset as nat, limit as nat));
        r
    } else {
        let r = String::from_str(window);
        r
    }
}

/// Consecutive reads join up: the window that starts where another one ends
/// (the offset that the truncation note gives) continues it exactly, so
/// reading chunk after chunk yields the document.
pub proof fn lemma_windows_join(content: Seq<char>, offset: nat, first: nat, second: nat)
    ensures
        page_window(content, offset as int, first as int) + page_window(
            content,
            (offset + first) as int,
            second as int,
        ) == page_window(content, offset as int, (first + second) as int),
{
    assert(page_window(content, offset as int, first as int) + page_window(
        content,
        (offset + first) as int,
        second as int,
    ) =~= page_window(content, offset as int, (first + second) as int));
}

/// A read from the start with a limit covering the whole document returns
/// the whole document, with no truncation note.
pub proof fn lemma_full_read(library: Seq<char>, page: Seq<char>, content: Seq<char>, limit: nat)
    requires
        content.len() > 0,
        limit >= content.len(),
    ensures
        read_reply_text(library, page, content, 0, limit) == content,
{
    assert(page_window(content, 0, limit as int) =~= content);
}

/// A read that stops before the end of the document shows exactly `limit`
/// characters and announces as the next offset the position right after them.
pub proof fn lemma_truncated_read(library: Seq<char>, page: Seq<char>, content: Seq<char>, offset: nat, limit: nat)
    requires
        offset + limit < content.len(),
    ensures
        read_reply_text(library, page, content, offset, limit) == content.subrange(
            offset as int,
            (offset + limit) as int,
        ) + truncation_note(offset + limit),
{
}

/// An empty query, whose lowercase form is empty too, matches every page:
/// searching with it lists all pages.
pub proof fn lemma_empty_query_matches_all(pages: Seq<Seq<char>>, query: Seq<char>)
    requires
        query.len() == 0,
        unicode_lowercase(query).len() == 0,
    ensures
        matching_pages(pages, query) == pages,
    decreases pages.len(),
{
    if pages.len() > 0 {
        lemma_empty_query_matches_all(pages.drop_last(), query);
        let low = unicode_lowercase(pages.last());
        assert(low.subrange(0, 0) =~= unicode_lowercase(query));
        assert(occurs_at(low, unicode_lowercase(query), 0));
        assert(pages.drop_last().push(pages.last()) =~= pages);
    }
}

/// A search keeps exactly the pages that match the query, in their order,
/// and drops no matching page.
pub proof fn lemma_search_keeps_every_match(pages: Seq<Seq<char>>, query: Seq<char>)
    ensures
        matching_pages(pages, query) == pages.filter(|p: Seq<char>| page_matches(p, query)),
        forall|i: int|
            0 <= i < pages.len() && page_matches(pages[i], query) ==> #[trigger] matching_pages(
                pages,
                query,
            ).contains(pages[i]),
    decreases pages.len(),
{
    let pred = |p: Seq<char>| page_matches(p, query);
    reveal(Seq::filter);
    if pages.len() > 0 {
        lemma_search_keeps_every_match(pages.drop_last(), query);
    }
    assert(matching_pages(pages, query) == pages.filter(pred));
    pages.filter_lemma(pred);
    assert forall|i: int| 0 <= i < pages.len() && page_matches(pages[i], query) implies #[trigger] matching_pages(
        pages,
        query,
    ).contains(pages[i]) by {
        assert(pred(pages[i]));
        assert(pages.filter(pred).contains(pages[i]));
    }
}

/// Every search result is one of the pages and matches the query.
pub proof fn lemma_search_results_match(pages: Seq<Seq<char>>, query: Seq<char>)
    ensures
        forall|i: int|
            0 <= i < matching_pages(pages, query).len() ==> pages.contains(
                #[trigger] matching_pages(pages, query)[i],
            ) && page_matches(matching_pages(pages, query)[i], query),
        matching_pages(pages, query).len() <= pages.len(),
    decreases pages.len(),
{
    if pages.len() > 0 {
        let init = pages.drop_last();
        lemma_search_results_match(init, query);
        let m = matching_pages(pages, query);
        assert forall|i: int| 0 <= i < m.len() implies pages.contains(#[trigger] m[i]) && page_matches(
            m[i],
            query,
        ) by {
            let mi = matching_pages(init, query);
            if i < mi.len() {
                assert(m[i] == mi[i]);
                let k = choose|k: int| 0 <= k < init.len() && init[k] == mi[i];
                assert(pages[k] == init[k]);
            } else {
                assert(m[i] == pages.last());
                assert(pages[pages.len() - 1] == pages.last());
            }
        }
    }
}

/// A documentation page offered as a resource.
#[derive(Debug, Clone, PartialEq, Eq)]
pub struct ResourceInfo {
    /// `docs://<library>/<page>`.
    pub uri: String,
    /// The page name.
    pub name: String,
    /// `Documentation page in <library>`.
    pub description: String,
    /// Always `text/markdown`.
    pub mime_type: String,
}

/// The URI under which a page of a library is offered.
pub open spec fn resource_uri_text(library: Seq<char>, page: Seq<char>) -> Seq<char> {
    "docs://"@ + library + "/"@ + page
}

/// The view of a resource: (uri, name, description, mime type).
pub open spec fn resource_view(r: ResourceInfo) -> (Seq<char>, Seq<char>, Seq<char>, Seq<char>) {
    (r.uri@, r.name@, r.description@, r.mime_type@)
}

/// The resource offered for a page of a library.
pub open spec fn resource_of(library: Seq<char>, page: Seq<char>) -> (Seq<char>, Seq<char>, Seq<char>, Seq<char>) {
    (resource_uri_text(library, page), page, "Documentation page in "@ + library, "text/markdown"@)
}

/// The resource for one page of a library.
pub fn resource_info(library: &str, page: &str) -> (r: ResourceInfo)
    ensures
        resource_view(r) == resource_of(library@, page@),
{
    let a = concat("docs://", library);
    let b = concat(a.as_str(), "/");
    let uri = concat(b.as_str(), page);
    let description = concat("Documentation page in ", library);
    ResourceInfo {
        uri,
        name: String::from_str(page),
        description,
        mime_type: String::from_str("text/markdown"),
    }
}

/// One entry of the storage directory, with the listing of its contents when
/// it is a directory that could be read.
pub struct LibraryDir {
    /// The entry's file name (the library name).
    pub name: String,
    /// Whether the entry is a directory.
    pub is_dir: bool,
    /// The directory's listing, or `None` when it could not be read.
    pub files: Option<Vec<DirEntryInfo>>,
}

/// The resources of one storage entry: one per page when it is a readable
/// library directory, none otherwise.
pub open spec fn dir_resources(d: LibraryDir) -> Seq<(Seq<char>, Seq<char>, Seq<char>, Seq<char>)> {
    match d.files {
        Some(files) => if d.is_dir {
            pages_of(files@).map_values(|p: Seq<char>| resource_of(d.name@, p))
        } else {
            Seq::empty()
        },
        None => Seq::empty(),
    }
}

/// The resources of the storage directory: those of each entry, in listing
/// order.
pub open spec fn all_resources(dirs: Seq<LibraryDir>) -> Seq<(Seq<char>, Seq<char>, Seq<char>, Seq<char>)>
    decreases dirs.len(),
{
    if dirs.len() == 0 {
        Seq::empty()
    } else {
        all_resources(dirs.drop_last()) + dir_resources(dirs.last())
    }
}

/// The views of a list of resources.
pub open spec fn resources_view(v: Seq<ResourceInfo>) -> Seq<(Seq<char>, Seq<char>, Seq<char>, Seq<char>)> {
    v.map_values(|r: ResourceInfo| resource_view(r))
}

/// The resources offered for the storage directory, given its listing
/// (see [`all_resources`]).
pub fn list_resources(dirs: &Vec<LibraryDir>) -> (r: Vec<ResourceInfo>)
    ensures
        resources_view(r@) == all_resources(dirs@),
{
    let mut out: Vec<ResourceInfo> = Vec::new();
    for i in 0..dirs.len()
        invariant
            resources_view(out@) == all_resources(dirs@.take(i as int)),
    {
        assert(dirs@.take(i + 1).drop_last() =~= dirs@.take(i as int));
        assert(dirs@.take(i + 1).last() == dirs@[i as int]);
        let d = &dirs[i];
        let ghost start = out@;
        match &d.files {
            Some(files) => {
                if d.is_dir {
                    let pages = select_pages(files);
                    let ghost pv = strings_view(pages@);
                    for k in 0..pages.len()
                        invariant
                            pv == strings_view(pages@),
                            resources_view(out@) == resources_view(start) + pv.take(k as int).map_values(
                                |p: Seq<char>| resource_of(d.name@, p),
                            ),
                    {
                        let ghost prev = out@;
                        let res = resource_info(d.name.as_str(), pages[k].as_str());
                        out.push(res);
                        assert(pv.take(k + 1) =~= pv.take(k as int).push(pages@[k as int]@));
                        assert(resources_view(out@) =~= resources_view(prev).push(resource_of(d.name@, pages@[k as int]@)));
                        assert(resources_view(out@) =~= resources_view(start) + pv.take(k + 1).map_values(
                            |p: Seq<char>| resource_of(d.name@, p),
                        ));
                    }
                    assert(pv.take(pages@.len() as int) =~= pv);
                } else {
                    assert(resources_view(out@) =~= resources_view(start) + Seq::empty());
                }
            },
            None => {
                assert(resources_view(out@) =~= resources_view(start) + Seq::empty());
            },
        }
    }
    assert(dirs@.take(dirs@.len() as int) =~= dirs@);
    out
}

/// Why a resource read is refused.
#[derive(Debug, Clone, Copy, PartialEq, Eq, Structural)]
pub enum ResourceError {
    /// The URI does not start with `docs://` (an invalid request).
    InvalidUriPrefix,
    /// The URI is not `docs://<library>/<page>`, or the page is missing or
    /// empty (an invalid request).
    NotFound,
    /// An embedded page is not valid UTF-8 (an internal error).
    InvalidUtf8,
}

impl ResourceError {
    /// The message sent with the error.
    pub fn message(&self) -> (r: String)
        ensures
            r@ == (match self {
                ResourceError::InvalidUriPrefix => "Invalid URI prefix"@,
                ResourceError::NotFound => "Resource not found"@,
                ResourceError::InvalidUtf8 => "Invalid UTF-8"@,
            }),
    {
        match self {
            ResourceError::InvalidUriPrefix => String::from_str("Invalid URI prefix"),
            ResourceError::NotFound => String::from_str("Resource not found"),
            ResourceError::InvalidUtf8 => String::from_str("Invalid UTF-8"),
        }
    }

    /// Whether the error is an internal error rather than an invalid request.
    pub fn is_internal(&self) -> (r: bool)
        ensures
            r == (*self == ResourceError::InvalidUtf8),
    {
        match self {
            ResourceError::InvalidUtf8 => true,
            _ => false,
        }
    }
}

/// What a resource URI names: after the `docs://` prefix, exactly two
/// `/`-separated parts, the library and the page (either may be empty).
pub open spec fn parsed_uri(uri: Seq<char>) -> Result<(Seq<char>, Seq<char>), ResourceError> {
    if !starts_with_text(uri, "docs://"@) {
        Err(ResourceError::InvalidUriPrefix)
    } else {
        let parts = split_on(uri.skip("docs://"@.len() as int), '/');
        if parts.len() != 2 {
            Err(ResourceError::NotFound)
        } else {
            Ok((parts[0], parts[1]))
        }
    }
}

/// Splits a resource URI into library and page (see [`parsed_uri`]).
pub fn parse_resource_uri(uri: &str) -> (r: Result<(String, String), ResourceError>)
    ensures
        match r {
            Ok((library, page)) => parsed_uri(uri@) == Ok::<(Seq<char>, Seq<char>), ResourceError>((library@, page@)),
            Err(e) => parsed_uri(uri@) == Err::<(Seq<char>, Seq<char>), ResourceError>(e),
        },
{
    if !text_starts_with(uri, "docs://") {
        return Err(ResourceError::InvalidUriPrefix);
    }
    let prefix = chars_of("docs://");
    let n = uri.unicode_len();
    let rest = uri.substring_char(prefix.len(), n);
    assert(rest@ =~= uri@.skip("docs://"@.len() as int));
    let mut parts = split_text(rest, '/');
    if parts.len() != 2 {
        return Err(ResourceError::NotFound);
    }
    let page = parts.pop().unwrap();
    let library = parts.pop().unwrap();
    Ok((library, page))
}

/// The text of a page read as a resource.
#[derive(Debug, Clone, PartialEq, Eq)]
pub struct ResourceText {
    pub uri: String,
    pub mime_type: String,
    pub text: String,
}

/// The reply to a resource read of `uri` whose page has `content` (empty when
/// it could not be read): the content as Markdown, or `NotFound` when empty.
pub fn read_resource_reply(uri: String, content: String) -> (r: Result<ResourceText, ResourceError>)
    ensures
        content@.len() == 0 ==> r == Err::<ResourceText, ResourceError>(ResourceError::NotFound),
        content@.len() > 0 ==> (r matches Ok(t) && t.uri == uri && t.text == content && t.mime_type@
            == "text/markdown"@),
{
    if content.as_str().is_empty() {
        Err(ResourceError::NotFound)
    } else {
        Ok(ResourceText { uri, mime_type: String::from_str("text/markdown"), text: content })
    }
}

/// Every offered resource can be read back: the URI of a page of a library,
/// when neither name contains `/`, parses to that library and page.
pub proof fn lemma_resource_uri_round_trip(library: Seq<char>, page: Seq<char>)
    requires
        !library.contains('/'),
        !page.contains('/'),
    ensures
        parsed_uri(resource_uri_text(library, page)) == Ok::<(Seq<char>, Seq<char>), ResourceError>((library, page)),
{
    let uri = resource_uri_text(library, page);
    let pre = "docs://"@;
    assert(uri.subrange(0, pre.len() as int) =~= pre);
    let rest = uri.skip(pre.len() as int);
    reveal_strlit("/");
    assert("/"@ =~= seq!['/']);
    assert(rest =~= library.push('/') + page);
    crate::paths::lemma_split_on_single(library, '/');
    let lp = library.push('/');
    assert(lp.drop_last() =~= library);
    assert(split_on(lp, '/') =~= seq![library, Seq::<char>::empty()]);
    crate::paths::lemma_split_on_extend(lp, page, '/');
    assert(Seq::<char>::empty() + page =~= page);
    assert(split_on(rest, '/') =~= seq![library, page]);
}

} // verus!
