//! Tool calls: their arguments, how a call is understood, and the replies
//! and tool descriptions the server sends.

use vstd::prelude::*;
use vstd::string::StringExecFns;
use crate::config::{LibraryConfig, LibrarySpec};
use crate::docs::Handler;
use crate::text::{same_text, concat};
use crate::json::{to_json_array, json_array_text};
use crate::paths::strings_view;

verus! {

/// The value of one tool-call argument, as far as the server reads it.
#[derive(Debug, Clone, PartialEq, Eq)]
pub enum ArgValue {
    /// A JSON string.
    Text(String),
    /// A JSON boolean.
    Flag(bool),
    /// A JSON number that is a non-negative integer fitting in 64 bits.
    Count(u64),
    /// Any other JSON value.
    Other,
}

/// The mathematical value of an [`ArgValue`].
pub enum ArgSpec {
    Text(Seq<char>),
    Flag(bool),
    Count(u64),
    Other,
}

impl View for ArgValue {
    type V = ArgSpec;

    open spec fn view(&self) -> ArgSpec {
        match self {
            ArgValue::Text(s) => ArgSpec::Text(s@),
            ArgValue::Flag(b) => ArgSpec::Flag(*b),
            ArgValue::Count(n) => ArgSpec::Count(*n),
            ArgValue::Other => ArgSpec::Other,
        }
    }
}

/// The arguments object of a tool call: named values.
pub type ToolArgs = Vec<(String, ArgValue)>;

/// The view of an arguments object.
pub open spec fn args_view(args: Seq<(String, ArgValue)>) -> Seq<(Seq<char>, ArgSpec)> {
    args.map_values(|a: (String, ArgValue)| (a.0@, a.1@))
}

/// The value given for `key`: that of its first occurrence.
pub open spec fn arg_lookup(args: Seq<(Seq<char>, ArgSpec)>, key: Seq<char>) -> Option<ArgSpec>
    decreases args.len(),
{
    if args.len() == 0 {
        None
    } else if args[0].0 == key {
        Some(args[0].1)
    } else {
        arg_lookup(args.drop_first(), key)
    }
}

/// Why a tool call is refused.
#[derive(Debug, Clone, PartialEq, Eq)]
pub enum ToolError {
    /// The arguments of `tool` are missing or wrong.
    InvalidArguments { tool: String, message: String },
    /// No tool has this name.
    UnknownTool { name: String },
}

/// The mathematical value of a [`ToolError`].
pub enum ToolErrorSpec {
    InvalidArguments { tool: Seq<char>, message: Seq<char> },
    UnknownTool { name: Seq<char> },
}

impl View for ToolError {
    type V = ToolErrorSpec;

    open spec fn view(&self) -> ToolErrorSpec {
        match self {
            ToolError::InvalidArguments { tool, message } => ToolErrorSpec::InvalidArguments {
                tool: tool@,
                message: message@,
            },
            ToolError::UnknownTool { name } => ToolErrorSpec::UnknownTool { name: name@ },
        }
    }
}

/// A tool call as the server understands it.
#[derive(Debug, Clone, PartialEq, Eq)]
pub enum ToolRequest {
    /// List the pages of a library.
    ListPages { library: String },
    /// Search a library's page names.
    SearchDocs { library: String, query: String },
    /// Read part of a page, in characters.
    ReadDocPage { library: String, page: String, offset: usize, limit: usize },
    /// Add (or replace) a library in the configuration and fetch it.
    AddDocs { library: LibraryConfig },
    /// Remove the libraries stored under a folder from the configuration.
    RemoveDocs { dst_folder: String },
    /// Report the configuration and the storage path.
    GetStatus,
}

/// The mathematical value of a [`ToolRequest`].
pub enum RequestSpec {
    ListPages { library: Seq<char> },
    SearchDocs { library: Seq<char>, query: Seq<char> },
    ReadDocPage { library: Seq<char>, page: Seq<char>, offset: usize, limit: usize },
    AddDocs { library: LibrarySpec },
    RemoveDocs { dst_folder: Seq<char> },
    GetStatus,
}

impl View for ToolRequest {
    type V = RequestSpec;

    open spec fn view(&self) -> RequestSpec {
        match self {
            ToolRequest::ListPages { library } => RequestSpec::ListPages { library: library@ },
            ToolRequest::SearchDocs { library, query } => RequestSpec::SearchDocs {
                library: library@,
                query: query@,
            },
            ToolRequest::ReadDocPage { library, page, offset, limit } => RequestSpec::ReadDocPage {
                library: library@,
                page: page@,
                offset: *offset,
                limit: *limit,
            },
            ToolRequest::AddDocs { library } => RequestSpec::AddDocs { library: library@ },
            ToolRequest::RemoveDocs { dst_folder } => RequestSpec::RemoveDocs { dst_folder: dst_folder@ },
            ToolRequest::GetStatus => RequestSpec::GetStatus,
        }
    }
}

/// The view of the outcome of understanding a tool call.
pub open spec fn outcome_view(r: Result<ToolRequest, ToolError>) -> Result<RequestSpec, ToolErrorSpec> {
    match r {
        Ok(q) => Ok(q@),
        Err(e) => Err(e@),
    }
}

/// An invalid-arguments error.
pub open spec fn invalid(tool: Seq<char>, message: Seq<char>) -> ToolErrorSpec {
    ToolErrorSpec::InvalidArguments { tool, message }
}

/// A required string argument: its text, or the error for a missing or
/// non-string value.
pub open spec fn required_text(tool: Seq<char>, args: Seq<(Seq<char>, ArgSpec)>, key: Seq<char>) -> Result<
    Seq<char>,
    ToolErrorSpec,
> {
    match arg_lookup(args, key) {
        None => Err(invalid(tool, "Missing '"@ + key + "' argument"@)),
        Some(ArgSpec::Text(s)) => Ok(s),
        Some(_) => Err(invalid(tool, "'"@ + key + "' must be a string"@)),
    }
}

/// An optional string argument: its text, or empty when missing or not a string.
pub open spec fn text_or_empty(args: Seq<(Seq<char>, ArgSpec)>, key: Seq<char>) -> Seq<char> {
    match arg_lookup(args, key) {
        Some(ArgSpec::Text(s)) => s,
        _ => Seq::empty(),
    }
}

/// An optional count argument: its value as a `usize`, or the default when
/// missing or not a non-negative integer.
pub open spec fn count_or(args: Seq<(Seq<char>, ArgSpec)>, key: Seq<char>, default: usize) -> usize {
    match arg_lookup(args, key) {
        Some(ArgSpec::Count(n)) => n as usize,
        _ => default,
    }
}

/// An optional boolean argument, false when missing or not a boolean.
pub open spec fn flag_or_false(args: Seq<(Seq<char>, ArgSpec)>, key: Seq<char>) -> bool {
    match arg_lookup(args, key) {
        Some(ArgSpec::Flag(b)) => b,
        _ => false,
    }
}

/// How the server understands a call of tool `name` with the given arguments
/// object, reading defaults `offset` and `limit`:
/// - `list_pages`, `search_docs`, `read_doc_page` need an arguments object
///   and the string arguments `library` (then `query`, or `page`); a read
///   takes `offset` and `limit` when they are non-negative integers;
/// - `add_docs` needs an arguments object and non-empty `repo_url` and
///   `dst_folder` (other values count as empty, `use_sparse` as false);
/// - `remove_docs` needs an arguments object; a missing `dst_folder` is empty;
/// - `chaosdocs_get_status` needs nothing;
/// - any other name is an unknown tool.
pub open spec fn understood(
    offset: usize,
    limit: usize,
    name: Seq<char>,
    args: Option<Seq<(Seq<char>, ArgSpec)>>,
) -> Result<RequestSpec, ToolErrorSpec> {
    if name == "list_pages"@ || name == "search_docs"@ || name == "read_doc_page"@ {
        match args {
            None => Err(invalid(name, "Missing arguments object"@)),
            Some(a) => match required_text(name, a, "library"@) {
                Err(e) => Err(e),
                Ok(library) => if name == "list_pages"@ {
                    Ok(RequestSpec::ListPages { library })
                } else if name == "search_docs"@ {
                    match required_text(name, a, "query"@) {
                        Err(e) => Err(e),
                        Ok(query) => Ok(RequestSpec::SearchDocs { library, query }),
                    }
                } else {
                    match required_text(name, a, "page"@) {
                        Err(e) => Err(e),
                        Ok(page) => Ok(
                            RequestSpec::ReadDocPage {
                                library,
                                page,
                                offset: count_or(a, "offset"@, offset),
                                limit: count_or(a, "limit"@, limit),
                            },
                        ),
                    }
                },
            },
        }
    } else if name == "add_docs"@ {
        match args {
            None => Err(invalid(name, "Missing arguments"@)),
            Some(a) => {
                let lib = LibrarySpec {
                    repo_url: text_or_empty(a, "repo_url"@),
                    sub_dir: text_or_empty(a, "sub_dir"@),
                    dst_folder: text_or_empty(a, "dst_folder"@),
                    use_sparse: flag_or_false(a, "use_sparse"@),
                };
                if lib.repo_url.len() == 0 || lib.dst_folder.len() == 0 {
                    Err(invalid(name, "repo_url and dst_folder are required"@))
                } else {
                    Ok(RequestSpec::AddDocs { library: lib })
                }
            },
        }
    } else if name == "remove_docs"@ {
        match args {
            None => Err(invalid(name, "Missing arguments"@)),
            Some(a) => Ok(RequestSpec::RemoveDocs { dst_folder: text_or_empty(a, "dst_folder"@) }),
        }
    } else if name == "chaosdocs_get_status"@ {
        Ok(RequestSpec::GetStatus)
    } else {
        Err(ToolErrorSpec::UnknownTool { name })
    }
}

/// The position of the first argument named `key`.
pub fn find_arg(args: &ToolArgs, key: &str) -> (r: Option<usize>)
    ensures
        match r {
            Some(i) => i < args@.len() && args@[i as int].0@ == key@ && arg_lookup(args_view(args@), key@)
                == Some(args@[i as int].1@),
            None => arg_lookup(args_view(args@), key@) is None,
        },
{
    let ghost all = args_view(args@);
    assert(all.skip(0) =~= all);
    for i in 0..args.len()
        invariant
            all == args_view(args@),
            arg_lookup(all, key@) == arg_lookup(all.skip(i as int), key@),
    {
        assert(all.skip(i as int)[0] == (args@[i as int].0@, args@[i as int].1@));
        assert(all.skip(i as int).drop_first() =~= all.skip(i + 1));
        if same_text(args[i].0.as_str(), key) {
            return Some(i);
        }
    }
    assert(all.skip(args@.len() as int) =~= Seq::<(Seq<char>, ArgSpec)>::empty());
    None
}

fn invalid_args(tool: &str, message: String) -> (r: ToolError)
    ensures
        r@ == invalid(tool@, message@),
{
    ToolError::InvalidArguments { tool: String::from_str(tool), message }
}

/// A required string argument (see [`required_text`]).
pub fn get_string_arg(args: &ToolArgs, tool_name: &str, arg_name: &str) -> (r: Result<String, ToolError>)
    ensures
        match r {
            Ok(s) => required_text(tool_name@, args_view(args@), arg_name@) == Ok::<Seq<char>, ToolErrorSpec>(s@),
            Err(e) => required_text(tool_name@, args_view(args@), arg_name@) == Err::<Seq<char>, ToolErrorSpec>(e@),
        },
{
    match find_arg(args, arg_name) {
        None => {
            let a = concat("Missing '", arg_name);
            let m = concat(a.as_str(), "' argument");
            Err(invalid_args(tool_name, m))
        },
        Some(i) => match &args[i].1 {
            ArgValue::Text(s) => Ok(s.clone()),
            _ => {
                let a = concat("'", arg_name);
                let m = concat(a.as_str(), "' must be a string");
                Err(invalid_args(tool_name, m))
            },
        },
    }
}

/// The arguments object of a read-style call, or the error for its absence.
pub fn get_args<'a>(args: Option<&'a ToolArgs>, tool_name: &str) -> (r: Result<&'a ToolArgs, ToolError>)
    ensures
        match args {
            Some(a) => r == Ok::<&ToolArgs, ToolError>(a),
            None => r matches Err(e) && e@ == invalid(tool_name@, "Missing arguments object"@),
        },
{
    match args {
        Some(a) => Ok(a),
        None => Err(invalid_args(tool_name, String::from_str("Missing arguments object"))),
    }
}

fn text_or_empty_of(args: &ToolArgs, key: &str) -> (r: String)
    ensures
        r@ == text_or_empty(args_view(args@), key@),
{
    match find_arg(args, key) {
        Some(i) => match &args[i].1 {
            ArgValue::Text(s) => s.clone(),
            _ => String::new(),
        },
        None => String::new(),
    }
}

fn count_or_of(args: &ToolArgs, key: &str, default: usize) -> (r: usize)
    ensures
        r == count_or(args_view(args@), key@, default),
{
    match find_arg(args, key) {
        Some(i) => match &args[i].1 {
            ArgValue::Count(n) => *n as usize,
            _ => default,
        },
        None => default,
    }
}

fn flag_or_false_of(args: &ToolArgs, key: &str) -> (r: bool)
    ensures
        r == flag_or_false(args_view(args@), key@),
{
    match find_arg(args, key) {
        Some(i) => match &args[i].1 {
            ArgValue::Flag(b) => *b,
            _ => false,
        },
        None => false,
    }
}

/// The view of an optional arguments object.
pub open spec fn opt_args_view(args: Option<&ToolArgs>) -> Option<Seq<(Seq<char>, ArgSpec)>> {
    match args {
        Some(a) => Some(args_view(a@)),
        None => None,
    }
}

impl Handler {
    /// Understands a tool call (see [`understood`]), with this handler's
    /// reading defaults.
    pub fn parse_tool_call(&self, name: &str, args: Option<&ToolArgs>) -> (r: Result<ToolRequest, ToolError>)
        ensures
            outcome_view(r) == understood(self.default_offset, self.default_limit, name@, opt_args_view(args)),
    {
        let is_list = same_text(name, "list_pages");
        let is_search = same_text(name, "search_docs");
        let is_read = same_text(name, "read_doc_page");
        if is_list || is_search || is_read {
            let a = match get_args(args, name) {
                Ok(a) => a,
                Err(e) => return Err(e),
            };
            let library = match get_string_arg(a, name, "library") {
                Ok(s) => s,
                Err(e) => return Err(e),
            };
            if is_list {
                return Ok(ToolRequest::ListPages { library });
            }
            if is_search {
                let query = match get_string_arg(a, name, "query") {
                    Ok(s) => s,
                    Err(e) => return Err(e),
                };
                return Ok(ToolRequest::SearchDocs { library, query });
            }
            let page = match get_string_arg(a, name, "page") {
                Ok(s) => s,
                Err(e) => return Err(e),
            };
            let offset = count_or_of(a, "offset", self.default_offset);
            let limit = count_or_of(a, "limit", self.default_limit);
            return Ok(ToolRequest::ReadDocPage { library, page, offset, limit });
        }
        if same_text(name, "add_docs") {
            let a = match args {
                Some(a) => a,
                None => return Err(invalid_args(name, String::from_str("Missing arguments"))),
            };
            let repo_url = text_or_empty_of(a, "repo_url");
            let sub_dir = text_or_empty_of(a, "sub_dir");
            let dst_folder = text_or_empty_of(a, "dst_folder");
            let use_sparse = flag_or_false_of(a, "use_sparse");
            if repo_url.as_str().is_empty() || dst_folder.as_str().is_empty() {
                return Err(invalid_args(name, String::from_str("repo_url and dst_folder are required")));
            }
            return Ok(ToolRequest::AddDocs { library: LibraryConfig { repo_url, sub_dir, dst_folder, use_sparse } });
        }
        if same_text(name, "remove_docs") {
            let a = match args {
                Some(a) => a,
                None => return Err(invalid_args(name, String::from_str("Missing arguments"))),
            };
            let dst_folder = text_or_empty_of(a, "dst_folder");
            return Ok(ToolRequest::RemoveDocs { dst_folder });
        }
        if same_text(name, "chaosdocs_get_status") {
            return Ok(ToolRequest::GetStatus);
        }
        Err(ToolError::UnknownTool { name: String::from_str(name) })
    }
}

/// Every request a call is understood as carries the values of the call's
/// own arguments, each read under its own name: the library from `library`,
/// the query from `query`, the page from `page`, the window from `offset` and
/// `limit` (else the defaults), the repository from `repo_url`, the folder
/// from `dst_folder`; and it is the request of the tool that was named.
pub proof fn lemma_requests_read_named_arguments(
    offset: usize,
    limit: usize,
    name: Seq<char>,
    args: Seq<(Seq<char>, ArgSpec)>,
)
    ensures
        understood(offset, limit, name, Some(args)) matches Ok(RequestSpec::ListPages { library })
            ==> name == "list_pages"@ && arg_lookup(args, "library"@) == Some(ArgSpec::Text(library)),
        understood(offset, limit, name, Some(args)) matches Ok(RequestSpec::SearchDocs { library, query })
            ==> name == "search_docs"@ && arg_lookup(args, "library"@) == Some(ArgSpec::Text(library))
            && arg_lookup(args, "query"@) == Some(ArgSpec::Text(query)),
        understood(offset, limit, name, Some(args)) matches Ok(
            RequestSpec::ReadDocPage { library, page, offset: o, limit: l },
        ) ==> name == "read_doc_page"@ && arg_lookup(args, "library"@) == Some(ArgSpec::Text(library))
            && arg_lookup(args, "page"@) == Some(ArgSpec::Text(page)) && (match arg_lookup(args, "offset"@) {
            Some(ArgSpec::Count(n)) => o == n as usize,
            _ => o == offset,
        }) && (match arg_lookup(args, "limit"@) {
            Some(ArgSpec::Count(n)) => l == n as usize,
            _ => l == limit,
        }),
        understood(offset, limit, name, Some(args)) matches Ok(RequestSpec::AddDocs { library })
            ==> name == "add_docs"@ && arg_lookup(args, "repo_url"@) == Some(ArgSpec::Text(library.repo_url))
            && arg_lookup(args, "dst_folder"@) == Some(ArgSpec::Text(library.dst_folder))
            && library.repo_url.len() > 0 && library.dst_folder.len() > 0,
        understood(offset, limit, name, Some(args)) matches Ok(RequestSpec::RemoveDocs { dst_folder })
            ==> name == "remove_docs"@ && (match arg_lookup(args, "dst_folder"@) {
            Some(ArgSpec::Text(s)) => dst_folder == s,
            _ => dst_folder.len() == 0,
        }),
        understood(offset, limit, name, Some(args)) matches Ok(RequestSpec::GetStatus) ==> name
            == "chaosdocs_get_status"@,
{
}

/// A `search_docs` call whose `library` and `query` arguments are strings is
/// understood as a search of that library for that query.
pub proof fn lemma_search_call_understood(
    offset: usize,
    limit: usize,
    args: Seq<(Seq<char>, ArgSpec)>,
    library: Seq<char>,
    query: Seq<char>,
)
    requires
        arg_lookup(args, "library"@) == Some(ArgSpec::Text(library)),
        arg_lookup(args, "query"@) == Some(ArgSpec::Text(query)),
    ensures
        understood(offset, limit, "search_docs"@, Some(args)) == Ok::<RequestSpec, ToolErrorSpec>(
            RequestSpec::SearchDocs { library, query },
        ),
{
    reveal_strlit("search_docs");
    reveal_strlit("list_pages");
    assert("search_docs"@ != "list_pages"@) by {
        assert("search_docs"@[0] != "list_pages"@[0]);
    }
}

/// The reply to `add_docs`, given whether saving the configuration failed
/// (and with what message).
pub open spec fn add_reply_text(save_error: Option<Seq<char>>) -> Seq<char> {
    match save_error {
        Some(e) => "Failed to save config: "@ + e,
        None => "Library added to configuration. Fetching in the background..."@,
    }
}

/// The reply to `add_docs` (see [`add_reply_text`]).
pub fn add_docs_reply(save_error: Option<String>) -> (r: String)
    ensures
        r@ == add_reply_text(crate::config::opt_view(save_error)),
{
    match save_error {
        Some(e) => concat("Failed to save config: ", e.as_str()),
        None => String::from_str("Library added to configuration. Fetching in the background..."),
    }
}

/// The reply to `remove_docs` for `dst_folder`: when no library was stored
/// there, that it was not found (nothing is saved); otherwise the save
/// failure, or the removal.
pub open spec fn remove_reply_text(dst_folder: Seq<char>, removed: bool, save_error: Option<Seq<char>>) -> Seq<char> {
    if !removed {
        "Library '"@ + dst_folder + "' not found in configuration."@
    } else {
        match save_error {
            Some(e) => "Failed to save config: "@ + e,
            None => "Library '"@ + dst_folder + "' removed successfully."@,
        }
    }
}

/// The reply to `remove_docs` (see [`remove_reply_text`]).
pub fn remove_docs_reply(dst_folder: &str, removed: bool, save_error: Option<String>) -> (r: String)
    ensures
        r@ == remove_reply_text(dst_folder@, removed, crate::config::opt_view(save_error)),
{
    if !removed {
        let a = concat("Library '", dst_folder);
        return concat(a.as_str(), "' not found in configuration.");
    }
    match save_error {
        Some(e) => concat("Failed to save config: ", e.as_str()),
        None => {
            let a = concat("Library '", dst_folder);
            concat(a.as_str(), "' removed successfully.")
        },
    }
}

/// The status report: the storage path and the configuration as JSON.
pub open spec fn status_report_text(storage_path: Seq<char>, config_json: Seq<char>) -> Seq<char> {
    "{\n  \"storage_path\": \""@ + storage_path + "\",\n  \"config\": "@ + config_json + "\n}"@
}

/// The reply to `chaosdocs_get_status` (see [`status_report_text`]).
pub fn status_report(storage_path: &str, config_json: &str) -> (r: String)
    ensures
        r@ == status_report_text(storage_path@, config_json@),
{
    let a = concat("{\n  \"storage_path\": \"", storage_path);
    let b = concat(a.as_str(), "\",\n  \"config\": ");
    let c = concat(b.as_str(), config_json);
    concat(c.as_str(), "\n}")
}

/// A tool the server offers: its name, description and the JSON schema of
/// its arguments.
#[derive(Debug, Clone, PartialEq, Eq)]
pub struct ToolInfo {
    pub name: String,
    pub description: String,
    pub input_schema: String,
}

/// The view of a tool description: (name, description, schema).
pub open spec fn tool_view(t: ToolInfo) -> (Seq<char>, Seq<char>, Seq<char>) {
    (t.name@, t.description@, t.input_schema@)
}

/// The tools the server offers, in order, given the JSON array of library
/// names that the `library` arguments accept.
pub open spec fn tool_catalog_spec(libs_json: Seq<char>) -> Seq<(Seq<char>, Seq<char>, Seq<char>)> {
    seq![
        (
            "list_pages"@,
            "List all available documentation pages for a specific library."@,
            "{\"type\":\"object\",\"properties\":{\"library\":{\"type\":\"string\",\"enum\":"@ + libs_json
                + "}},\"required\":[\"library\"]}"@,
        ),
        (
            "search_docs"@,
            "Search for documentation pages within a specific library by matching the query against filenames."@,
            "{\"type\":\"object\",\"properties\":{\"library\":{\"type\":\"string\",\"enum\":"@ + libs_json
                + "},\"query\":{\"type\":\"string\"}},\"required\":[\"library\",\"query\"]}"@,
        ),
        (
            "read_doc_page"@,
            "Read the contents of a specific documentation page. Provide exact library and page name. Supports offset and limit for pagination."@,
            "{\"type\":\"object\",\"properties\":{\"library\":{\"type\":\"string\",\"enum\":"@ + libs_json
                + "},\"page\":{\"type\":\"string\"},\"offset\":{\"type\":\"integer\",\"description\":\"Character offset to start reading from. Default is 0.\"},\"limit\":{\"type\":\"integer\",\"description\":\"Maximum number of characters to read. Default is 16000.\"}},\"required\":[\"library\",\"page\"]}"@,
        ),
        (
            "add_docs"@,
            "Add a new documentation library to the configuration and fetch it immediately (only works if not compiled with embed-docs)."@,
            "{\"type\":\"object\",\"properties\":{\"repo_url\":{\"type\":\"string\",\"description\":\"Git repository URL\"},\"sub_dir\":{\"type\":\"string\",\"description\":\"Subdirectory to extract from the repo (e.g., 'src' or 'docs')\"},\"dst_folder\":{\"type\":\"string\",\"description\":\"Destination folder name for the library (e.g., 'rhai')\"},\"use_sparse\":{\"type\":\"boolean\",\"description\":\"Whether to use sparse checkout to only download the sub_dir\"}},\"required\":[\"repo_url\",\"sub_dir\",\"dst_folder\",\"use_sparse\"]}"@,
        ),
        (
            "remove_docs"@,
            "Remove a documentation library from the configuration (only works if not compiled with embed-docs)."@,
            "{\"type\":\"object\",\"properties\":{\"dst_folder\":{\"type\":\"string\",\"description\":\"Destination folder name of the library to remove\"}},\"required\":[\"dst_folder\"]}"@,
        ),
        (
            "chaosdocs_get_status"@,
            "Returns the active read-only configuration settings and the absolute path to the documentation storage directory. Use this to orient the agent to the environment."@,
            "{\"type\":\"object\",\"properties\":{}}"@,
        ),
    ]
}

fn tool(name: &str, description: &str, input_schema: String) -> (r: ToolInfo)
    ensures
        tool_view(r) == (name@, description@, input_schema@),
{
    ToolInfo { name: String::from_str(name), description: String::from_str(description), input_schema }
}

fn library_schema(libs_json: &str, before: &str, after: &str) -> (r: String)
    ensures
        r@ == before@ + libs_json@ + after@,
{
    let a = concat(before, libs_json);
    concat(a.as_str(), after)
}

/// The tools the server offers, for the given library names (see
/// [`tool_catalog_spec`]).
pub fn tool_catalog(libs: &Vec<String>) -> (r: Vec<ToolInfo>)
    ensures
        r@.map_values(|t: ToolInfo| tool_view(t)) == tool_catalog_spec(json_array_text(strings_view(libs@))),
{
    let libs_json = to_json_array(libs);
    let j = libs_json.as_str();
    let mut r: Vec<ToolInfo> = Vec::new();
    r.push(tool(
        "list_pages",
        "List all available documentation pages for a specific library.",
        library_schema(j, "{\"type\":\"object\",\"properties\":{\"library\":{\"type\":\"string\",\"enum\":", "}},\"required\":[\"library\"]}"),
    ));
    r.push(tool(
        "search_docs",
        "Search for documentation pages within a specific library by matching the query against filenames.",
        library_schema(j, "{\"type\":\"object\",\"properties\":{\"library\":{\"type\":\"string\",\"enum\":", "},\"query\":{\"type\":\"string\"}},\"required\":[\"library\",\"query\"]}"),
    ));
    r.push(tool(
        "read_doc_page",
        "Read the contents of a specific documentation page. Provide exact library and page name. Supports offset and limit for pagination.",
        library_schema(j, "{\"type\":\"object\",\"properties\":{\"library\":{\"type\":\"string\",\"enum\":", "},\"page\":{\"type\":\"string\"},\"offset\":{\"type\":\"integer\",\"description\":\"Character offset to start reading from. Default is 0.\"},\"limit\":{\"type\":\"integer\",\"description\":\"Maximum number of characters to read. Default is 16000.\"}},\"required\":[\"library\",\"page\"]}"),
    ));
    r.push(tool(
        "add_docs",
        "Add a new documentation library to the configuration and fetch it immediately (only works if not compiled with embed-docs).",
        String::from_str("{\"type\":\"object\",\"properties\":{\"repo_url\":{\"type\":\"string\",\"description\":\"Git repository URL\"},\"sub_dir\":{\"type\":\"string\",\"description\":\"Subdirectory to extract from the repo (e.g., 'src' or 'docs')\"},\"dst_folder\":{\"type\":\"string\",\"description\":\"Destination folder name for the library (e.g., 'rhai')\"},\"use_sparse\":{\"type\":\"boolean\",\"description\":\"Whether to use sparse checkout to only download the sub_dir\"}},\"required\":[\"repo_url\",\"sub_dir\",\"dst_folder\",\"use_sparse\"]}"),
    ));
    r.push(tool(
        "remove_docs",
        "Remove a documentation library from the configuration (only works if not compiled with embed-docs).",
        String::from_str("{\"type\":\"object\",\"properties\":{\"dst_folder\":{\"type\":\"string\",\"description\":\"Destination folder name of the library to remove\"}},\"required\":[\"dst_folder\"]}"),
    ));
    r.push(tool(
        "chaosdocs_get_status",
        "Returns the active read-only configuration settings and the absolute path to the documentation storage directory. Use this to orient the agent to the environment.",
        String::from_str("{\"type\":\"object\",\"properties\":{}}"),
    ));
    assert(r@.map_values(|t: ToolInfo| tool_view(t)) =~= tool_catalog_spec(json_array_text(strings_view(libs@))));
    r
}

/// The tools offered when pages are embedded in the program: the same list
/// without `add_docs` and `remove_docs`.
pub open spec fn embedded_tool_catalog_spec(libs_json: Seq<char>) -> Seq<(Seq<char>, Seq<char>, Seq<char>)> {
    let all = tool_catalog_spec(libs_json);
    seq![all[0], all[1], all[2], all[5]]
}

/// The tools offered when pages are embedded (see
/// [`embedded_tool_catalog_spec`]).
pub fn embedded_tool_catalog(libs: &Vec<String>) -> (r: Vec<ToolInfo>)
    ensures
        r@.map_values(|t: ToolInfo| tool_view(t)) == embedded_tool_catalog_spec(json_array_text(strings_view(libs@))),
{
    let mut all = tool_catalog(libs);
    let ghost full = all@.map_values(|t: ToolInfo| tool_view(t));
    let ghost before = all@;
    assert(full.len() == 6);
    assert(all@.len() == 6);
    let _ = all.remove(4);
    let _ = all.remove(3);
    assert(all@ =~= seq![before[0], before[1], before[2], before[5]]);
    assert(all@.map_values(|t: ToolInfo| tool_view(t)) =~= seq![full[0], full[1], full[2], full[5]]);
    all
}

/// How the server understands a tool call when pages are embedded: the
/// tools that change the configuration are refused with a message saying so;
/// every other call is understood as usual (see [`understood`]).
pub open spec fn understood_embedded(
    offset: usize,
    limit: usize,
    name: Seq<char>,
    args: Option<Seq<(Seq<char>, ArgSpec)>>,
) -> Result<RequestSpec, ToolErrorSpec> {
    if name == "add_docs"@ || name == "remove_docs"@ {
        Err(invalid(name, name + " is not supported when running with embed-docs feature."@))
    } else {
        understood(offset, limit, name, args)
    }
}

/// With embedded pages, a call of `add_docs` or `remove_docs` is refused
/// whatever its arguments, and every other call is understood exactly as it
/// is when pages are fetched.
pub proof fn lemma_embedded_calls(
    offset: usize,
    limit: usize,
    name: Seq<char>,
    args: Option<Seq<(Seq<char>, ArgSpec)>>,
)
    ensures
        name == "add_docs"@ ==> understood_embedded(offset, limit, name, args) == Err::<
            RequestSpec,
            ToolErrorSpec,
        >(invalid("add_docs"@, "add_docs is not supported when running with embed-docs feature."@)),
        name == "remove_docs"@ ==> understood_embedded(offset, limit, name, args) == Err::<
            RequestSpec,
            ToolErrorSpec,
        >(invalid("remove_docs"@, "remove_docs is not supported when running with embed-docs feature."@)),
        name != "add_docs"@ && name != "remove_docs"@ ==> understood_embedded(offset, limit, name, args)
            == understood(offset, limit, name, args),
{
    reveal_strlit("add_docs");
    reveal_strlit("remove_docs");
    reveal_strlit(" is not supported when running with embed-docs feature.");
    reveal_strlit("add_docs is not supported when running with embed-docs feature.");
    reveal_strlit("remove_docs is not supported when running with embed-docs feature.");
    assert("add_docs"@ + " is not supported when running with embed-docs feature."@
        =~= "add_docs is not supported when running with embed-docs feature."@);
    assert("remove_docs"@ + " is not supported when running with embed-docs feature."@
        =~= "remove_docs is not supported when running with embed-docs feature."@);
}

impl Handler {
    /// Understands a tool call when pages are embedded (see
    /// [`understood_embedded`]).
    pub fn parse_embedded_tool_call(&self, name: &str, args: Option<&ToolArgs>) -> (r: Result<
        ToolRequest,
        ToolError,
    >)
        ensures
            outcome_view(r) == understood_embedded(
                self.default_offset,
                self.default_limit,
                name@,
                opt_args_view(args),
            ),
    {
        if same_text(name, "add_docs") || same_text(name, "remove_docs") {
            let m = concat(name, " is not supported when running with embed-docs feature.");
            return Err(invalid_args(name, m));
        }
        self.parse_tool_call(name, args)
    }
}

} // verus!
