//! The documentation store when the pages are embedded in the program: the
//! embedded files are named `<library>/<path>/<page>`.

use vstd::prelude::*;
use crate::docs::{
    insert_sorted, strictly_sorted, resource_info, resource_of, resources_view, ResourceInfo, ResourceError,
    ResourceText, read_reply_text, read_doc_page_reply, read_resource_reply,
};
use vstd::utf8::{valid_utf8, decode_utf8};
use vstd::string::StringExecFns;
use crate::paths::{char_vecs_view, split_on, split_text, strings_of, strings_view, lemma_split_on_nonempty};
use crate::text::{chars_of, concat, ends_with_text, starts_with_text, text_ends_with, text_starts_with, utf8_text};

verus! {

/// The library of an embedded file: the first `/`-separated piece of its name.
pub open spec fn embedded_library_of(path: Seq<char>) -> Seq<char> {
    split_on(path, '/')[0]
}

/// Whether `name` is the library of one of the embedded files.
pub open spec fn is_embedded_library(files: Seq<Seq<char>>, name: Seq<char>) -> bool {
    exists|i: int| 0 <= i < files.len() && embedded_library_of(#[trigger] files[i]) == name
}

/// The library names of the embedded files, in increasing order and each once.
pub fn embedded_library_names(files: &Vec<String>) -> (r: Vec<String>)
    ensures
        strictly_sorted(strings_view(r@)),
        forall|t: Seq<char>| strings_view(r@).contains(t) <==> is_embedded_library(strings_view(files@), t),
{
    let ghost all = strings_view(files@);
    let mut keys: Vec<Vec<char>> = Vec::new();
    for i in 0..files.len()
        invariant
            all == strings_view(files@),
            strictly_sorted(char_vecs_view(keys@)),
            forall|t: Seq<char>|
                char_vecs_view(keys@).contains(t) <==> is_embedded_library(all.take(i as int), t),
    {
        let parts = split_text(files[i].as_str(), '/');
        proof {
            lemma_split_on_nonempty(files@[i as int]@, '/');
        }
        let first = chars_of(parts[0].as_str());
        assert(first@ == embedded_library_of(all[i as int]));
        insert_sorted(&mut keys, first);
        assert forall|t: Seq<char>|
            char_vecs_view(keys@).contains(t) <==> is_embedded_library(all.take(i + 1), t) by {
            let sub = all.take(i + 1);
            assert(sub[i as int] == all[i as int]);
            if is_embedded_library(all.take(i as int), t) {
                let k = choose|k: int| 0 <= k < i && embedded_library_of(#[trigger] all.take(i as int)[k]) == t;
                assert(sub[k] == all.take(i as int)[k]);
            }
            if is_embedded_library(sub, t) {
                let k = choose|k: int| 0 <= k < i + 1 && embedded_library_of(#[trigger] sub[k]) == t;
                if k < i {
                    assert(all.take(i as int)[k] == sub[k]);
                }
            }
        }
    }
    assert(all.take(all.len() as int) =~= all);
    strings_of(&keys)
}

/// Whether an embedded file is a page: its name ends in `.md` or `.mdx`.
pub open spec fn is_embedded_page(path: Seq<char>) -> bool {
    ends_with_text(path, ".md"@) || ends_with_text(path, ".mdx"@)
}

/// The pages of a library among the embedded files: for each page file under
/// `<library>/`, in order, the last piece of its name.
pub open spec fn embedded_pages_of(files: Seq<Seq<char>>, library: Seq<char>) -> Seq<Seq<char>>
    decreases files.len(),
{
    if files.len() == 0 {
        Seq::empty()
    } else {
        let f = files.last();
        let before = embedded_pages_of(files.drop_last(), library);
        if starts_with_text(f, library + "/"@) && is_embedded_page(f) {
            before.push(split_on(f, '/').last())
        } else {
            before
        }
    }
}

fn is_page_file(f: &str) -> (r: bool)
    ensures
        r == is_embedded_page(f@),
{
    text_ends_with(f, ".md") || text_ends_with(f, ".mdx")
}

/// The pages of `library` among the embedded files (see [`embedded_pages_of`]).
pub fn embedded_pages(files: &Vec<String>, library: &str) -> (r: Vec<String>)
    ensures
        strings_view(r@) == embedded_pages_of(strings_view(files@), library@),
{
    let ghost all = strings_view(files@);
    let prefix = concat(library, "/");
    let mut out: Vec<String> = Vec::new();
    for i in 0..files.len()
        invariant
            all == strings_view(files@),
            prefix@ == library@ + "/"@,
            strings_view(out@) == embedded_pages_of(all.take(i as int), library@),
    {
        assert(all.take(i + 1).drop_last() =~= all.take(i as int));
        assert(all.take(i + 1).last() == files@[i as int]@);
        let f = files[i].as_str();
        if text_starts_with(f, prefix.as_str()) && is_page_file(f) {
            let mut parts = split_text(f, '/');
            proof {
                lemma_split_on_nonempty(f@, '/');
            }
            let last = parts.pop().unwrap();
            let ghost prev = out@;
            out.push(last);
            assert(strings_view(out@) =~= strings_view(prev).push(split_on(f@, '/').last()));
        }
    }
    assert(all.take(all.len() as int) =~= all);
    out
}

/// The resources of the embedded files: for each page file whose name has at
/// least two pieces, in order, the resource for the page named by the last
/// piece in the library named by the first.
pub open spec fn embedded_resources_of(files: Seq<Seq<char>>) -> Seq<(Seq<char>, Seq<char>, Seq<char>, Seq<char>)>
    decreases files.len(),
{
    if files.len() == 0 {
        Seq::empty()
    } else {
        let f = files.last();
        let before = embedded_resources_of(files.drop_last());
        let parts = split_on(f, '/');
        if is_embedded_page(f) && parts.len() >= 2 {
            before.push(resource_of(parts[0], parts.last()))
        } else {
            before
        }
    }
}

/// The resources of the embedded files (see [`embedded_resources_of`]).
pub fn embedded_resources(files: &Vec<String>) -> (r: Vec<ResourceInfo>)
    ensures
        resources_view(r@) == embedded_resources_of(strings_view(files@)),
{
    let ghost all = strings_view(files@);
    let mut out: Vec<ResourceInfo> = Vec::new();
    for i in 0..files.len()
        invariant
            all == strings_view(files@),
            resources_view(out@) == embedded_resources_of(all.take(i as int)),
    {
        assert(all.take(i + 1).drop_last() =~= all.take(i as int));
        assert(all.take(i + 1).last() == files@[i as int]@);
        let f = files[i].as_str();
        if is_page_file(f) {
            let parts = split_text(f, '/');
            if parts.len() >= 2 {
                let n = parts.len();
                let res = resource_info(parts[0].as_str(), parts[n - 1].as_str());
                let ghost prev = out@;
                out.push(res);
                assert(resources_view(out@) =~= resources_view(prev).push(
                    resource_of(split_on(f@, '/')[0], split_on(f@, '/').last()),
                ));
            }
        }
    }
    assert(all.take(all.len() as int) =~= all);
    out
}

/// The name under which a page of a library is embedded: `<library>/<page>`.
pub open spec fn embedded_path_text(library: Seq<char>, page: Seq<char>) -> Seq<char> {
    library + "/"@ + page
}

/// The embedded file name of a page (see [`embedded_path_text`]).
pub fn embedded_path(library: &str, page: &str) -> (r: String)
    ensures
        r@ == embedded_path_text(library@, page@),
{
    let a = concat(library, "/");
    concat(a.as_str(), page)
}

/// The reply to `read_doc_page` when pages are embedded, given the embedded
/// file's bytes (`None` when there is no such file): a missing file reads as
/// an empty page; bytes that are not valid UTF-8 give an error text;
/// otherwise the reply is that of the decoded text.
pub open spec fn embedded_read_reply_text(
    library: Seq<char>,
    page: Seq<char>,
    file: Option<Seq<u8>>,
    offset: nat,
    limit: nat,
) -> Seq<char> {
    match file {
        None => read_reply_text(library, page, Seq::empty(), offset, limit),
        Some(b) => if valid_utf8(b) {
            read_reply_text(library, page, decode_utf8(b), offset, limit)
        } else {
            "Error reading file: Invalid UTF-8"@
        },
    }
}

/// The view of an optional byte slice.
pub open spec fn opt_slice_view(file: Option<&[u8]>) -> Option<Seq<u8>> {
    match file {
        Some(b) => Some(b@),
        None => None,
    }
}

/// The reply to `read_doc_page` when pages are embedded (see
/// [`embedded_read_reply_text`]).
pub fn embedded_read_doc_page_reply(
    library: &str,
    page: &str,
    file: Option<&[u8]>,
    offset: usize,
    limit: usize,
) -> (r: String)
    ensures
        r@ == embedded_read_reply_text(library@, page@, opt_slice_view(file), offset as nat, limit as nat),
{
    match file {
        None => {
            let empty = String::new();
            let r = read_doc_page_reply(library, page, empty.as_str(), offset, limit);
            assert(empty@ =~= Seq::<char>::empty());
            r
        },
        Some(b) => match utf8_text(b) {
            Some(text) => read_doc_page_reply(library, page, text, offset, limit),
            None => String::from_str("Error reading file: Invalid UTF-8"),
        },
    }
}

/// The reply to a resource read when pages are embedded, given the embedded
/// file's bytes (`None` when there is no such file): bytes that are not valid
/// UTF-8 give `InvalidUtf8`; a missing file or an empty page gives
/// `NotFound`; otherwise the decoded text as Markdown.
pub fn read_embedded_resource_reply(uri: String, file: Option<&[u8]>) -> (r: Result<ResourceText, ResourceError>)
    ensures
        match file {
            Some(b) if !valid_utf8(b@) => r == Err::<ResourceText, ResourceError>(ResourceError::InvalidUtf8),
            Some(b) if decode_utf8(b@).len() > 0 => r matches Ok(t) && t.uri == uri && t.text@ == decode_utf8(b@)
                && t.mime_type@ == "text/markdown"@,
            _ => r == Err::<ResourceText, ResourceError>(ResourceError::NotFound),
        },
{
    match file {
        None => read_resource_reply(uri, String::new()),
        Some(b) => match utf8_text(b) {
            Some(text) => read_resource_reply(uri, String::from_str(text)),
            None => Err(ResourceError::InvalidUtf8),
        },
    }
}

} // verus!
