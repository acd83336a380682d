use chaosnexus_codex::config::CodexConfig;
use chaosnexus_codex::docs::{
    library_names, list_pages_reply, list_resources, parse_resource_uri, read_doc_page_reply,
    read_resource_reply, resource_info, search_docs_reply, search_pages, select_pages, DirEntryInfo,
    Handler, LibraryDir, ResourceError,
};
use chaosnexus_codex::paths::{extension, file_name, path_join, split_text};
use chaosnexus_codex::server::{port_candidates, server_settings};
use chaosnexus_codex::text::{decimal, text_contains};
use chaosnexus_codex::tools::{
    add_docs_reply, remove_docs_reply, status_report, tool_catalog, ArgValue, ToolError, ToolRequest,
};

fn dir(name: &str) -> DirEntryInfo {
    DirEntryInfo { name: name.to_string(), is_file: false, is_dir: true }
}

fn file(name: &str) -> DirEntryInfo {
    DirEntryInfo { name: name.to_string(), is_file: true, is_dir: false }
}

fn strings(v: &[&str]) -> Vec<String> {
    v.iter().map(|s| s.to_string()).collect()
}

#[test]
fn library_names_sorted_unique_dirs() {
    let entries = vec![dir("rhai"), file("notes.md"), dir("anvil"), dir("rhai"), dir("Zed"), dir("forge")];
    assert_eq!(library_names(&entries), strings(&["Zed", "anvil", "forge", "rhai"]));
    assert!(library_names(&vec![]).is_empty());
}

#[test]
fn pages_are_markdown_files_in_listing_order() {
    let entries = vec![file("b.md"), file("a.mdx"), dir("c.md"), file("d.txt"), file(".md"), file("e.md")];
    assert_eq!(select_pages(&entries), strings(&["b.md", "a.mdx", "e.md"]));
}

#[test]
fn list_pages_reply_json_or_error() {
    assert_eq!(list_pages_reply("rhai", &strings(&["a.md", "b.md"])), "[\"a.md\",\"b.md\"]");
    assert_eq!(list_pages_reply("rhai", &vec![]), "Error: Library 'rhai' not found or empty");
}

#[test]
fn list_pages_reply_escapes_names() {
    let pages = vec!["a\"b.md".to_string(), "c\\d.md".to_string(), "e\nf\tg.md".to_string(), "h\u{1}i\u{1f}.md".to_string(), "\u{7f}é.md".to_string()];
    assert_eq!(
        list_pages_reply("rhai", &pages),
        "[\"a\\\"b.md\",\"c\\\\d.md\",\"e\\nf\\tg.md\",\"h\\u0001i\\u001f.md\",\"\u{7f}é.md\"]"
    );
}

#[test]
fn search_is_case_insensitive_substring() {
    let pages = strings(&["Getting-Started.md", "api.md", "Start.mdx"]);
    assert_eq!(search_pages(&pages, "START"), strings(&["Getting-Started.md", "Start.mdx"]));
    assert_eq!(search_pages(&pages, ""), pages);
    assert_eq!(search_docs_reply("rhai", &pages, "nothing"), "[]");
    assert_eq!(search_docs_reply("rhai", &pages, "api"), "[\"api.md\"]");
    assert_eq!(search_docs_reply("rhai", &vec![], "api"), "Error: Library 'rhai' not found or empty");
}

#[test]
fn read_page_windows_and_truncation_note() {
    let doc = "héllo wörld";
    assert_eq!(read_doc_page_reply("l", "p", doc, 0, 100), doc);
    assert_eq!(
        read_doc_page_reply("l", "p", doc, 0, 5),
        "héllo\n\n...[TRUNCATED: Document has more content. Use offset=5 to read next chunk.]"
    );
    assert_eq!(read_doc_page_reply("l", "p", doc, 6, 5), "wörld");
    assert_eq!(read_doc_page_reply("l", "p", doc, 50, 5), "");
    assert_eq!(read_doc_page_reply("l", "p", doc, 3, 0), "\n\n...[TRUNCATED: Document has more content. Use offset=3 to read next chunk.]");
    assert_eq!(read_doc_page_reply("lib", "page.md", "", 0, 5), "Error: Page 'page.md' in library 'lib' not found");
}

#[test]
fn consecutive_reads_rebuild_the_document() {
    let doc = "abcdefghij";
    let mut text = String::new();
    let mut offset = 0;
    loop {
        let reply = read_doc_page_reply("l", "p", doc, offset, 3);
        match reply.find("\n\n...[TRUNCATED") {
            Some(i) => {
                text.push_str(&reply[..i]);
                offset += 3;
                assert!(reply.contains(&format!("offset={}", offset)));
            }
            None => {
                text.push_str(&reply);
                break;
            }
        }
    }
    assert_eq!(text, doc);
}

#[test]
fn resources_listing_and_uri() {
    let r = resource_info("rhai", "intro.md");
    assert_eq!(r.uri, "docs://rhai/intro.md");
    assert_eq!(r.name, "intro.md");
    assert_eq!(r.description, "Documentation page in rhai");
    assert_eq!(r.mime_type, "text/markdown");
    let dirs = vec![
        LibraryDir { name: "rhai".to_string(), is_dir: true, files: Some(vec![file("a.md"), file("x.txt")]) },
        LibraryDir { name: "top.md".to_string(), is_dir: false, files: None },
        LibraryDir { name: "broken".to_string(), is_dir: true, files: None },
        LibraryDir { name: "anvil".to_string(), is_dir: true, files: Some(vec![file("b.mdx")]) },
    ];
    let all = list_resources(&dirs);
    let uris: Vec<&str> = all.iter().map(|r| r.uri.as_str()).collect();
    assert_eq!(uris, vec!["docs://rhai/a.md", "docs://anvil/b.mdx"]);
}

#[test]
fn resource_uri_parsing() {
    assert_eq!(parse_resource_uri("docs://rhai/intro.md"), Ok(("rhai".to_string(), "intro.md".to_string())));
    assert_eq!(parse_resource_uri("file://rhai/intro.md"), Err(ResourceError::InvalidUriPrefix));
    assert_eq!(parse_resource_uri("docs://rhai"), Err(ResourceError::NotFound));
    assert_eq!(parse_resource_uri("docs://a/b/c"), Err(ResourceError::NotFound));
    assert_eq!(parse_resource_uri("docs:///x"), Ok(("".to_string(), "x".to_string())));
    assert_eq!(ResourceError::InvalidUriPrefix.message(), "Invalid URI prefix");
    assert_eq!(ResourceError::NotFound.message(), "Resource not found");
    assert_eq!(read_resource_reply("u".to_string(), String::new()), Err(ResourceError::NotFound));
    let t = read_resource_reply("u".to_string(), "# hi".to_string()).unwrap();
    assert_eq!(t.text, "# hi");
    assert_eq!(t.mime_type, "text/markdown");
    assert_eq!(t.uri, "u");
}

fn args(pairs: Vec<(&str, ArgValue)>) -> Vec<(String, ArgValue)> {
    pairs.into_iter().map(|(k, v)| (k.to_string(), v)).collect()
}

#[test]
fn tool_calls_understood() {
    let h = Handler::new(0, 16000);
    let a = args(vec![("library", ArgValue::Text("rhai".to_string()))]);
    assert_eq!(h.parse_tool_call("list_pages", Some(&a)), Ok(ToolRequest::ListPages { library: "rhai".to_string() }));
    assert_eq!(
        h.parse_tool_call("list_pages", None),
        Err(ToolError::InvalidArguments { tool: "list_pages".to_string(), message: "Missing arguments object".to_string() })
    );
    assert_eq!(
        h.parse_tool_call("search_docs", Some(&a)),
        Err(ToolError::InvalidArguments { tool: "search_docs".to_string(), message: "Missing 'query' argument".to_string() })
    );
    let bad = args(vec![("library", ArgValue::Count(3))]);
    assert_eq!(
        h.parse_tool_call("read_doc_page", Some(&bad)),
        Err(ToolError::InvalidArguments { tool: "read_doc_page".to_string(), message: "'library' must be a string".to_string() })
    );
    let read = args(vec![
        ("library", ArgValue::Text("rhai".to_string())),
        ("page", ArgValue::Text("a.md".to_string())),
        ("offset", ArgValue::Count(40)),
        ("limit", ArgValue::Other),
    ]);
    assert_eq!(
        h.parse_tool_call("read_doc_page", Some(&read)),
        Ok(ToolRequest::ReadDocPage { library: "rhai".to_string(), page: "a.md".to_string(), offset: 40, limit: 16000 })
    );
    assert_eq!(
        h.parse_tool_call("nope", Some(&a)),
        Err(ToolError::UnknownTool { name: "nope".to_string() })
    );
    assert_eq!(h.parse_tool_call("chaosdocs_get_status", None), Ok(ToolRequest::GetStatus));
}

#[test]
fn add_and_remove_calls_understood() {
    let h = Handler::new(0, 16000);
    let add = args(vec![
        ("repo_url", ArgValue::Text("https://x/y.git".to_string())),
        ("dst_folder", ArgValue::Text("y".to_string())),
        ("use_sparse", ArgValue::Flag(true)),
    ]);
    match h.parse_tool_call("add_docs", Some(&add)) {
        Ok(ToolRequest::AddDocs { library }) => {
            assert_eq!(library.repo_url, "https://x/y.git");
            assert_eq!(library.sub_dir, "");
            assert_eq!(library.dst_folder, "y");
            assert!(library.use_sparse);
        }
        other => panic!("unexpected {:?}", other),
    }
    let missing = args(vec![("repo_url", ArgValue::Text("https://x/y.git".to_string()))]);
    assert_eq!(
        h.parse_tool_call("add_docs", Some(&missing)),
        Err(ToolError::InvalidArguments {
            tool: "add_docs".to_string(),
            message: "repo_url and dst_folder are required".to_string()
        })
    );
    assert_eq!(
        h.parse_tool_call("add_docs", None),
        Err(ToolError::InvalidArguments { tool: "add_docs".to_string(), message: "Missing arguments".to_string() })
    );
    assert_eq!(
        h.parse_tool_call("remove_docs", Some(&args(vec![]))),
        Ok(ToolRequest::RemoveDocs { dst_folder: "".to_string() })
    );
}

#[test]
fn replies_for_configuration_changes() {
    assert_eq!(add_docs_reply(None), "Library added to configuration. Fetching in the background...");
    assert_eq!(add_docs_reply(Some("disk full".to_string())), "Failed to save config: disk full");
    assert_eq!(remove_docs_reply("y", false, None), "Library 'y' not found in configuration.");
    assert_eq!(remove_docs_reply("y", true, None), "Library 'y' removed successfully.");
    assert_eq!(remove_docs_reply("y", true, Some("e".to_string())), "Failed to save config: e");
    assert_eq!(status_report("/d", "{}"), "{\n  \"storage_path\": \"/d\",\n  \"config\": {}\n}");
}

#[test]
fn tool_catalog_lists_six_tools() {
    let tools = tool_catalog(&strings(&["anvil", "rhai"]));
    let names: Vec<&str> = tools.iter().map(|t| t.name.as_str()).collect();
    assert_eq!(names, vec!["list_pages", "search_docs", "read_doc_page", "add_docs", "remove_docs", "chaosdocs_get_status"]);
    let schema: serde_json::Value = serde_json::from_str(&tools[0].input_schema).unwrap();
    assert_eq!(schema["properties"]["library"]["enum"][1], "rhai");
    for t in &tools {
        let v: serde_json::Value = serde_json::from_str(&t.input_schema).unwrap();
        assert_eq!(v["type"], "object");
    }
}

#[test]
fn settings_prefer_command_line() {
    let mut c = CodexConfig::default();
    c.default_offset = Some(7);
    c.port = Some(9000);
    let s = server_settings(None, Some(1), None, &c);
    assert_eq!(s.default_offset, 1);
    assert_eq!(s.default_limit, 16000);
    assert_eq!(s.port, Some(9000));
    let t = server_settings(Some(80), None, Some(5), &c);
    assert_eq!(t.default_offset, 7);
    assert_eq!(t.default_limit, 5);
    assert_eq!(t.port, Some(80));
    let ports = port_candidates(65435);
    assert_eq!(ports.len(), 101);
    assert_eq!(ports[0], 65435);
    assert_eq!(ports[100], 65535);
}

#[test]
fn path_helpers() {
    assert_eq!(path_join("a", "b"), "a/b");
    assert_eq!(path_join("a/", "b"), "a/b");
    assert_eq!(path_join("", "b"), "b");
    assert_eq!(path_join("a", "/b"), "/b");
    assert_eq!(path_join("a", ""), "a/");
    assert_eq!(file_name("a/b.md"), Some("b.md".to_string()));
    assert_eq!(file_name("a/b/"), Some("b".to_string()));
    assert_eq!(file_name("a/b/."), Some("b".to_string()));
    assert_eq!(file_name("a/.."), None);
    assert_eq!(file_name("/"), None);
    assert_eq!(extension("x/a.tar.gz"), Some("gz".to_string()));
    assert_eq!(extension(".bashrc"), None);
    assert_eq!(extension("a."), Some("".to_string()));
    assert_eq!(split_text("a//b", '/'), strings(&["a", "", "b"]));
    assert_eq!(split_text("", '/'), strings(&[""]));
}

#[test]
fn text_helpers() {
    assert_eq!(decimal(0), "0");
    assert_eq!(decimal(16000), "16000");
    assert_eq!(decimal(u64::MAX), "18446744073709551615");
    assert!(text_contains("hello", "ll"));
    assert!(text_contains("hello", ""));
    assert!(!text_contains("he", "hello"));
}
