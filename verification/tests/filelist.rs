use filelist::listing::DirEntryInfo;
use filelist::listing::FileItem;
use filelist::listing::FolderItem;
use filelist::listing::spell_out_bytes;
use filelist::newfolder::NewFolderDecision;
use filelist::newfolder::NewFolderOutcome;
use filelist::newfolder::get_new_folder_respond;
use filelist::newfolder::new_folder_decision;
use filelist::paths::SecurityError;
use filelist::paths::fix_path;
use filelist::paths::joined_path;
use filelist::paths::path_is_inside;
use filelist::paths::path_leaf;
use filelist::paths::path_parent;
use filelist::paths::secure_join;
use filelist::respond::encode_error;
use filelist::respond::get_file_respond;
use pretty_bytes::converter::convert;

#[test]
fn test_fix_path() {
    let path = "some/windows/path.txt";
    assert_eq!(String::from("some/windows/path.txt"), fix_path(path));
}

#[test]
fn join_appends_one_separator() {
    assert_eq!(joined_path("/srv/files", "docs"), "/srv/files/docs");
    assert_eq!(joined_path("/srv/files/", "docs"), "/srv/files/docs");
    assert_eq!(joined_path("/srv/files", "sub/../../outside"), "/srv/files/sub/../../outside");
    assert_eq!(joined_path("/srv/files", ""), "/srv/files");
    assert_eq!(joined_path("/srv/files", "/etc"), "/etc");
}

#[test]
fn parent_and_leaf_split_on_last_separator() {
    assert_eq!(path_parent("sub/dir/leaf"), "sub/dir");
    assert_eq!(path_leaf("sub/dir/leaf"), "leaf");
    assert_eq!(path_parent("name"), "");
    assert_eq!(path_leaf("name"), "name");
    assert_eq!(path_parent("/x"), "/");
    assert_eq!(path_leaf("dir/"), "");
}

#[test]
fn containment_respects_segment_boundaries() {
    assert!(path_is_inside("/srv/files/docs", "/srv/files"));
    assert!(path_is_inside("/srv/files", "/srv/files"));
    assert!(!path_is_inside("/srv/filesx", "/srv/files"));
    assert!(!path_is_inside("/etc/passwd", "/srv/files"));
    assert!(path_is_inside("/etc", "/"));
}

#[test]
fn secure_join_accepts_only_paths_inside_root() {
    let ok = secure_join("/srv/files", Some("/srv/files/docs"));
    assert_eq!(ok.unwrap(), "/srv/files/docs");
    let root_itself = secure_join("/srv/files", Some("/srv/files"));
    assert_eq!(root_itself.unwrap(), "/srv/files");
    let escaped = secure_join("/srv/files", Some("/etc/passwd"));
    assert!(matches!(escaped, Err(SecurityError::OutsideRoot)));
    let sibling = secure_join("/srv/files", Some("/srv/filesx"));
    assert!(matches!(sibling, Err(SecurityError::OutsideRoot)));
    let unresolved = secure_join("/srv/files", None);
    assert!(matches!(unresolved, Err(SecurityError::Unresolvable)));
}

#[test]
fn secure_join_is_idempotent_on_accepted_paths() {
    let first = secure_join("/srv/files", Some("/srv/files/docs")).unwrap();
    let second = secure_join("/srv/files", Some(first.as_str())).unwrap();
    assert_eq!(first, second);
}

#[test]
fn traversal_request_yields_send_error() {
    let out = get_file_respond("sub/../../outside", None);
    assert_eq!(
        out,
        "{\"action\":\"sendError\",\"message\":\"Cannot read the given path: \\\"sub/../../outside\\\"\"}"
    );
}

#[test]
fn listing_of_one_folder_and_one_file() {
    let entries = vec![
        DirEntryInfo { name: Some("docs".to_string()), is_dir: true, size: None, category: String::new() },
        DirEntryInfo {
            name: Some("a.txt".to_string()),
            is_dir: false,
            size: Some(convert(5.0)),
            category: "text".to_string(),
        },
    ];
    let out = get_file_respond("", Some(&entries));
    assert_eq!(
        out,
        "{\"action\":\"sendFilelist\",\"path\":\"\",\"folders\":[{\"name\":\"docs\"}],\"files\":[{\"name\":\"a.txt\",\"size\":\"5 bytes\",\"category\":\"text\"}]}"
    );
}

#[test]
fn listing_keeps_every_readable_entry() {
    let entries = vec![
        DirEntryInfo { name: Some("sub".to_string()), is_dir: true, size: None, category: String::new() },
        DirEntryInfo {
            name: Some("b.bin".to_string()),
            is_dir: false,
            size: None,
            category: "binary".to_string(),
        },
        DirEntryInfo { name: None, is_dir: false, size: None, category: String::new() },
        DirEntryInfo {
            name: Some("c.txt".to_string()),
            is_dir: false,
            size: Some(convert(7.0)),
            category: "text".to_string(),
        },
    ];
    let out = get_file_respond("somewhere", Some(&entries));
    let v: serde_json::Value = serde_json::from_str(&out).unwrap();
    let folders = v.get("folders").unwrap().as_array().unwrap();
    assert_eq!(folders.len(), 1);
    assert_eq!(folders[0].get("name").unwrap().as_str().unwrap(), "sub");
    let files = v.get("files").unwrap().as_array().unwrap();
    assert_eq!(files.len(), 2);
    assert_eq!(files[0].get("name").unwrap().as_str().unwrap(), "b.bin");
    assert_eq!(files[0].get("size").unwrap().as_str().unwrap(), "");
    assert_eq!(files[1].get("name").unwrap().as_str().unwrap(), "c.txt");
    assert_eq!(files[1].get("size").unwrap().as_str().unwrap(), "7 bytes");
    assert_eq!(files[1].get("category").unwrap().as_str().unwrap(), "text");
}

#[test]
fn names_are_html_escaped() {
    let folder = FolderItem::from_name("a<b&c\"d'e>f");
    assert_eq!(folder.name, "a&lt;b&amp;c&quot;d&#x27;e&gt;f");
    let file = FileItem::from_name("<script>", "code");
    assert_eq!(file.name, "&lt;script&gt;");
    assert_eq!(file.size, "");
    assert_eq!(file.category, "code");
}

#[test]
fn escaped_names_reach_the_response() {
    let entries = vec![DirEntryInfo {
        name: Some("<i>".to_string()),
        is_dir: true,
        size: None,
        category: String::new(),
    }];
    let out = get_file_respond("x", Some(&entries));
    let v: serde_json::Value = serde_json::from_str(&out).unwrap();
    let folders = v.get("folders").unwrap().as_array().unwrap();
    assert_eq!(folders[0].get("name").unwrap().as_str().unwrap(), "&lt;i&gt;");
}

#[test]
fn zero_byte_file_spells_out_bytes() {
    let file = FileItem::from("empty.txt", "text", &convert(0.0));
    assert_eq!(file.size, "0 bytes");
    assert!(file.size.ends_with("bytes"));
    let larger = FileItem::from("big.iso", "image", &convert(1500.0));
    assert_eq!(larger.size, "1.5 kB");
    assert_eq!(spell_out_bytes("5 B"), "5 bytes");
    assert_eq!(spell_out_bytes("1.5 kB"), "1.5 kB");
}

#[test]
fn folder_decision_rejects_parent_outside_root() {
    let outside = new_folder_decision("/srv/files", "sub/new", Some("/etc"));
    assert!(matches!(outside, NewFolderDecision::Invalid));
    let unresolved = new_folder_decision("/srv/files", "ghost/new", None);
    assert!(matches!(unresolved, NewFolderDecision::Invalid));
}

#[test]
fn folder_decision_rebuilds_target_from_validated_parent() {
    let good = new_folder_decision("/srv/files", "docs/new", Some("/srv/files/docs"));
    match good {
        NewFolderDecision::Create(target) => assert_eq!(target, "/srv/files/docs/new"),
        NewFolderDecision::Invalid => panic!("expected a creation target"),
    }
    let dotdot = new_folder_decision("/srv/files", "docs/..", Some("/srv/files/docs"));
    assert!(matches!(dotdot, NewFolderDecision::Invalid));
    let empty_leaf = new_folder_decision("/srv/files", "docs/", Some("/srv/files/docs"));
    assert!(matches!(empty_leaf, NewFolderDecision::Invalid));
}

#[test]
fn new_folder_responses_are_exact() {
    let invalid = get_new_folder_respond(&NewFolderOutcome::InvalidPath);
    assert_eq!(
        invalid,
        "{\"action\":\"sendNewFolder\",\"created\":false,\"message\":\"Cannot create new folder, because the path is invalid\"}"
    );
    let created = get_new_folder_respond(&NewFolderOutcome::Created);
    assert_eq!(created, "{\"action\":\"sendNewFolder\",\"created\":true,\"message\":\"\"}");
    let failed = get_new_folder_respond(&NewFolderOutcome::CreateFailed(
        "File exists (os error 17)".to_string(),
    ));
    assert_eq!(
        failed,
        "{\"action\":\"sendNewFolder\",\"created\":false,\"message\":\"Cannot create new folder.<br<br>Exact Error: File exists (os error 17)\"}"
    );
    let v: serde_json::Value = serde_json::from_str(&failed).unwrap();
    assert_eq!(v.get("created").unwrap().as_bool().unwrap(), false);
    assert!(!v.get("message").unwrap().as_str().unwrap().is_empty());
}

#[test]
fn json_escaping_round_trips_through_a_parser() {
    let out = encode_error("a \"quoted\" back\\slash\nand tab\t end");
    let v: serde_json::Value = serde_json::from_str(&out).unwrap();
    assert_eq!(
        v.get("message").unwrap().as_str().unwrap(),
        "a \"quoted\" back\\slash\nand tab\t end"
    );
    let control = encode_error("x\u{1}y");
    assert_eq!(control, "{\"action\":\"sendError\",\"message\":\"x\\u0001y\"}");
    let parsed: serde_json::Value = serde_json::from_str(&control).unwrap();
    assert_eq!(parsed.get("message").unwrap().as_str().unwrap(), "x\u{1}y");
}

#[test]
fn error_path_with_quotes_stays_valid_json() {
    let out = get_file_respond("we\"ird", None);
    let v: serde_json::Value = serde_json::from_str(&out).unwrap();
    assert_eq!(
        v.get("message").unwrap().as_str().unwrap(),
        "Cannot read the given path: \"we\"ird\""
    );
}
