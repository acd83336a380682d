use chaosnexus_codex::docs::{parse_resource_uri, resource_info};
use chaosnexus_codex::embedded::{embedded_library_names, embedded_pages, embedded_resources};

fn strings(v: &[&str]) -> Vec<String> {
    v.iter().map(|s| s.to_string()).collect()
}

#[test]
fn embedded_library_names_sorted_unique() {
    let files = strings(&["rhai/a.md", "anvil/x/b.md", "rhai/c.txt", "README"]);
    assert_eq!(embedded_library_names(&files), strings(&["README", "anvil", "rhai"]));
}

#[test]
fn embedded_pages_under_library_prefix() {
    let files = strings(&["rhai/a.md", "rhai/sub/b.mdx", "rhai/c.txt", "rhaix/d.md", "anvil/e.md", "rhai/.md"]);
    assert_eq!(embedded_pages(&files, "rhai"), strings(&["a.md", "b.mdx", ".md"]));
    assert!(embedded_pages(&files, "none").is_empty());
}

#[test]
fn embedded_resources_need_library_and_page() {
    let files = strings(&["rhai/a.md", "top.md", "anvil/x/b.mdx", "rhai/c.txt"]);
    let uris: Vec<String> = embedded_resources(&files).into_iter().map(|r| r.uri).collect();
    assert_eq!(uris, strings(&["docs://rhai/a.md", "docs://anvil/b.mdx"]));
}

#[test]
fn listed_resource_uris_parse_back() {
    let r = resource_info("rhai", "intro.md");
    assert_eq!(parse_resource_uri(&r.uri), Ok(("rhai".to_string(), "intro.md".to_string())));
    let e = resource_info("", "");
    assert_eq!(parse_resource_uri(&e.uri), Ok((String::new(), String::new())));
}

use chaosnexus_codex::docs::{Handler, ResourceError};
use chaosnexus_codex::embedded::{embedded_path, embedded_read_doc_page_reply, read_embedded_resource_reply};
use chaosnexus_codex::tools::{embedded_tool_catalog, tool_catalog, ArgValue, ToolError, ToolRequest};

#[test]
fn embedded_build_offers_no_configuration_tools() {
    let libs = strings(&["rhai"]);
    let tools = embedded_tool_catalog(&libs);
    let names: Vec<&str> = tools.iter().map(|t| t.name.as_str()).collect();
    assert_eq!(names, vec!["list_pages", "search_docs", "read_doc_page", "chaosdocs_get_status"]);
    let all = tool_catalog(&libs);
    assert_eq!(tools[2], all[2]);
    assert_eq!(tools[3], all[5]);
}

#[test]
fn embedded_build_refuses_configuration_tools() {
    let h = Handler::new(0, 16000);
    let args = vec![
        ("repo_url".to_string(), ArgValue::Text("https://x/y.git".to_string())),
        ("dst_folder".to_string(), ArgValue::Text("y".to_string())),
    ];
    assert_eq!(
        h.parse_embedded_tool_call("add_docs", Some(&args)),
        Err(ToolError::InvalidArguments {
            tool: "add_docs".to_string(),
            message: "add_docs is not supported when running with embed-docs feature.".to_string()
        })
    );
    assert_eq!(
        h.parse_embedded_tool_call("remove_docs", None),
        Err(ToolError::InvalidArguments {
            tool: "remove_docs".to_string(),
            message: "remove_docs is not supported when running with embed-docs feature.".to_string()
        })
    );
    let list = vec![("library".to_string(), ArgValue::Text("rhai".to_string()))];
    assert_eq!(
        h.parse_embedded_tool_call("list_pages", Some(&list)),
        Ok(ToolRequest::ListPages { library: "rhai".to_string() })
    );
}

#[test]
fn embedded_page_reads() {
    assert_eq!(embedded_path("rhai", "a.md"), "rhai/a.md");
    assert_eq!(embedded_read_doc_page_reply("rhai", "a.md", Some("héllo".as_bytes()), 1, 2), "él\n\n...[TRUNCATED: Document has more content. Use offset=3 to read next chunk.]");
    assert_eq!(embedded_read_doc_page_reply("rhai", "a.md", Some(&[0xff, 0xfe]), 0, 5), "Error reading file: Invalid UTF-8");
    assert_eq!(embedded_read_doc_page_reply("rhai", "a.md", None, 0, 5), "Error: Page 'a.md' in library 'rhai' not found");
    assert_eq!(embedded_read_doc_page_reply("rhai", "a.md", Some(b""), 0, 5), "Error: Page 'a.md' in library 'rhai' not found");
}

#[test]
fn embedded_resource_reads() {
    assert_eq!(read_embedded_resource_reply("u".to_string(), Some(&[0xc3])), Err(ResourceError::InvalidUtf8));
    assert!(ResourceError::InvalidUtf8.is_internal());
    assert!(!ResourceError::NotFound.is_internal());
    assert_eq!(ResourceError::InvalidUtf8.message(), "Invalid UTF-8");
    assert_eq!(read_embedded_resource_reply("u".to_string(), None), Err(ResourceError::NotFound));
    assert_eq!(read_embedded_resource_reply("u".to_string(), Some(b"")), Err(ResourceError::NotFound));
    let t = read_embedded_resource_reply("u".to_string(), Some(b"# hi")).unwrap();
    assert_eq!(t.text, "# hi");
}
