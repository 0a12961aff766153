use toolloop::json::encode_object_text;
use toolloop::project::{
    decode_read_file_args, decode_write_file_args, is_not_important_path, path_rejected,
    EntryKind, Project, ReadFileResult, WriteFileResult,
};

#[test]
fn test_list_files() {
    let project = Project::new("project_src".to_string());
    // The caller's walk over a root holding one interesting file beside
    // denylisted entries, pruned the way the tool prunes.
    let walk = [
        (EntryKind::Directory, ".git"),
        (EntryKind::File, "Cargo.lock"),
        (EntryKind::File, "main.rs"),
    ];
    let mut files: Vec<String> = Vec::new();
    for (kind, rel) in walk {
        if !is_not_important_path(kind, rel) && kind == EntryKind::File {
            files.push(rel.to_string());
        }
    }
    let contents = project.list_contents(files);
    assert_eq!(contents.files.len(), 1);
}

#[test]
fn path_rules() {
    assert!(path_rejected("/etc/passwd"));
    assert!(path_rejected("./src/main.rs"));
    assert!(path_rejected(".hidden"));
    assert!(path_rejected("a/../b"));
    assert!(path_rejected(".."));
    assert!(!path_rejected(""));
    assert!(!path_rejected("src/main.rs"));
    assert!(!path_rejected("a.b/c.d"));
}

#[test]
fn denylist_rules() {
    assert!(is_not_important_path(EntryKind::Directory, ".git"));
    assert!(is_not_important_path(EntryKind::Directory, "target"));
    assert!(!is_not_important_path(EntryKind::Directory, "src"));
    assert!(is_not_important_path(EntryKind::File, ".gitignore"));
    assert!(is_not_important_path(EntryKind::File, ".env"));
    assert!(is_not_important_path(EntryKind::File, "Cargo.lock"));
    assert!(is_not_important_path(EntryKind::File, "LICENSE"));
    assert!(is_not_important_path(EntryKind::File, "LICENSE.txt"));
    assert!(!is_not_important_path(EntryKind::File, "Cargo.toml"));
    assert!(is_not_important_path(EntryKind::Other, "anything"));
}

#[test]
fn read_tool_outcomes() {
    let project = Project::new("root".to_string());
    let r = project.read_file("../secret", None);
    assert_eq!(r.error.unwrap(), "Invalid path.");
    assert!(r.contents.is_none());

    let r = project.read_file("src/lib.rs", Some("pub fn f() {}".to_string()));
    assert!(r.error.is_none());
    assert_eq!(r.contents.unwrap(), "pub fn f() {}");

    let r = project.read_file("missing.rs", None);
    assert_eq!(r.error.unwrap(), "Cannot read file.");
    assert!(r.contents.is_none());
}

#[test]
fn write_tool_outcomes_and_mutation_flag() {
    let mut project = Project::new("root".to_string());
    assert!(!project.is_dirty());

    // A rejected path neither writes nor marks the project mutated.
    let r = project.write_file("/abs", None);
    assert_eq!(r.error.unwrap(), "Invalid path.");
    assert!(!project.is_dirty());

    // A failed write reports its error and does not mark the project.
    let r = project.write_file("out/gen.rs", Some(false));
    assert_eq!(r.error.unwrap(), "Cannot write file.");
    assert!(!project.is_dirty());

    // Only a successful write marks the project mutated.
    let r = project.write_file("out/gen.rs", Some(true));
    assert!(r.error.is_none());
    assert!(project.is_dirty());

    project.clear_dirty();
    assert!(!project.is_dirty());

    project.mark_dirty();
    assert!(project.is_dirty());
    project.clear_dirty();
    assert!(!project.is_dirty());
}

#[test]
fn argument_decoding() {
    let a = decode_read_file_args(r#"{"path":"src/main.rs"}"#).unwrap();
    assert_eq!(a.path, "src/main.rs");

    // Unknown string-valued fields are ignored.
    let a = decode_read_file_args(r#"{"other":"x","path":"a"}"#).unwrap();
    assert_eq!(a.path, "a");

    // Escapes, and an astral character passed through verbatim.
    let a = decode_read_file_args(r#"{"path":"a\nbA\\ 😀"}"#).unwrap();
    assert_eq!(a.path, "a\nbA\\ \u{1F600}");

    // A supplementary character written as a surrogate pair.
    let a = decode_read_file_args(r#"{"path":"\uD83D\uDE00 \u0041"}"#).unwrap();
    assert_eq!(a.path, "\u{1F600} A");

    let w = decode_write_file_args(r#"{ "path" : "a.rs" , "contents" : "x\ty" }"#).unwrap();
    assert_eq!(w.path, "a.rs");
    assert_eq!(w.contents, "x\ty");

    assert!(decode_read_file_args("").is_none());
    assert!(decode_read_file_args("{}").is_none());
    assert!(decode_read_file_args(r#"{"path":"a"} trailing"#).is_none());
    assert!(decode_read_file_args(r#"{"path":"a","path":"b"}"#).is_none());
    assert!(decode_read_file_args(r#"{"path":"\uD800"}"#).is_none());
    assert!(decode_read_file_args(r#"{"path":"broken"#).is_none());
    assert!(decode_write_file_args(r#"{"path":"a"}"#).is_none());
}

#[test]
fn result_encoding() {
    let listing = Project::new("p".to_string()).list_contents(vec![
        "a.rs".to_string(),
        "b/c.rs".to_string(),
    ]);
    assert_eq!(encode_object_text(&listing.to_json()), r#"{"files":["a.rs","b/c.rs"]}"#);

    let empty = Project::new("p".to_string()).list_contents(Vec::new());
    assert_eq!(encode_object_text(&empty.to_json()), r#"{"files":[]}"#);

    let ok = ReadFileResult { error: None, contents: Some("fn main() {}".to_string()) };
    assert_eq!(
        encode_object_text(&ok.to_json()),
        r#"{"error":null,"contents":"fn main() {}"}"#
    );

    let err = ReadFileResult { error: Some("Cannot read file.".to_string()), contents: None };
    assert_eq!(encode_object_text(&err.to_json()), r#"{"error":"Cannot read file.","contents":null}"#);

    let wrote = WriteFileResult { error: None };
    assert_eq!(encode_object_text(&wrote.to_json()), r#"{"error":null}"#);

    // Escaping: quotes, backslashes, short escapes, and a bare control byte.
    let tricky = ReadFileResult {
        error: None,
        contents: Some("say \"hi\"\\ \n\t\r\u{8}\u{c}\u{1f} é".to_string()),
    };
    assert_eq!(
        encode_object_text(&tricky.to_json()),
        "{\"error\":null,\"contents\":\"say \\\"hi\\\"\\\\ \\n\\t\\r\\b\\f\\u001f é\"}"
    );
}
