use bws_manager::filemanager::{
    add_file_at, create_folder, deleat_file_at, deleate_file, deletion_failed, deletion_parent, display_files, file_saved,
    fs_path_of, get_session_root, home_name_ok, join_path, new_folder_path, list_files, listing_or_error, strip_from_path, upload_file,
    ActiveSessionConstructorGuard, DirEntryInfo, DisplayDecision, FileResponse, RequestPath,
};
use bws_manager::models::ActiveSession;
use std::path::Path;

fn path(segs: &[&str]) -> RequestPath {
    RequestPath::from_segments(segs.iter().map(|s| s.to_string()).collect()).unwrap()
}

fn entry(name: Option<&str>, is_dir: Option<bool>) -> DirEntryInfo {
    DirEntryInfo { name: name.map(|s| s.to_string()), is_dir }
}

fn listing() -> FileResponse {
    list_files(&path(&["a"]), Ok(vec![entry(Some("f"), Some(false))])).unwrap()
}

#[test]
fn request_path_validation() {
    assert!(RequestPath::from_segments(vec!["a".to_string(), "".to_string()]).is_none());
    assert!(RequestPath::from_segments(vec!["a/b".to_string()]).is_none());
    assert_eq!(path(&["a", "b"]).to_path_string(), "a/b");
    assert_eq!(RequestPath::root().to_path_string(), "");
}

#[test]
fn strip_removes_trailing_segments() {
    let p = path(&["a", "b", "c"]);
    assert_eq!(strip_from_path(&p, 1).to_path_string(), "a/b");
    assert_eq!(strip_from_path(&p, 3).to_path_string(), "");
    assert_eq!(strip_from_path(&p, 0).to_path_string(), "a/b/c");
}

#[test]
fn join_path_like_pathbuf() {
    for (b, p) in [("./data/user-home/", "bob"), ("a", "b"), ("a/", "b"), ("", "b"), ("a", "/etc"), ("a", "")] {
        assert_eq!(join_path(b, p), Path::new(b).join(p).to_str().unwrap());
    }
}

#[test]
fn session_root_and_fs_path() {
    assert_eq!(get_session_root(None, "bob").as_deref(), Some("./data/user-home/bob"));
    assert_eq!(fs_path_of("./data/user-home/bob", &path(&["docs", "x"])), "./data/user-home/bob/docs/x");
    assert_eq!(fs_path_of("./data/user-home/bob", &RequestPath::root()), "./data/user-home/bob/");
}

#[test]
fn guard_from_sessions() {
    let s = ActiveSession { id: 9, user: "b".to_string(), service_id: 1, docker_id: None, container_ip: None, port: None, unix_created_at: 0 };
    let g = ActiveSessionConstructorGuard::from_sessions(&vec![s]).unwrap();
    assert_eq!(g._id, vec![9]);
    assert!(ActiveSessionConstructorGuard::from_sessions(&vec![]).is_none());
}

#[test]
fn listing_hides_dotfiles_and_builds_paths() {
    let r = list_files(&path(&["docs", "x"]), Ok(vec![entry(Some(".hidden"), None), entry(Some("f.txt"), Some(false)), entry(Some("sub"), Some(true))])).unwrap();
    let names: Vec<(String, String, bool)> = r.dir_content.iter().map(|f| (f.name.clone(), f.path.clone(), f.is_dir)).collect();
    assert_eq!(names, vec![("f.txt".to_string(), "docs/x/f.txt".to_string(), false), ("sub".to_string(), "docs/x/sub".to_string(), true)]);
    assert_eq!(r.current, "docs/x");
    assert_eq!(r.parrent_dir_path.as_deref(), Some("/files/docs"));
    assert!(r.error_block.is_none());
}

#[test]
fn listing_at_root() {
    let r = list_files(&RequestPath::root(), Ok(vec![entry(Some("f"), Some(false)), entry(Some(""), None)])).unwrap();
    assert_eq!(r.dir_content.len(), 1);
    assert_eq!(r.dir_content[0].path, "f");
    assert_eq!(r.current, "");
    assert!(r.parrent_dir_path.is_none());
    let r = list_files(&path(&["a"]), Ok(vec![])).unwrap();
    assert_eq!(r.parrent_dir_path.as_deref(), Some("/files/"));
}

#[test]
fn listing_errors() {
    assert_eq!(list_files(&RequestPath::root(), Err("denied".to_string())).err(), Some("Error reading directory: denied".to_string()));
    assert_eq!(list_files(&RequestPath::root(), Ok(vec![entry(Some("a"), Some(true)), entry(None, Some(true))])).err(), Some("Could not convert filename".to_string()));
    assert_eq!(list_files(&RequestPath::root(), Ok(vec![entry(Some("a"), None), entry(None, None)])).err(), Some("Could not determin if file is dir".to_string()));
    assert!(list_files(&RequestPath::root(), Ok(vec![entry(Some(".a"), None)])).is_ok());
}

#[test]
fn display_decisions() {
    match display_files(false, false) {
        DisplayDecision::Missing(m) => assert_eq!(m, "The path dose not exist"),
        _ => panic!(),
    }
    assert!(matches!(display_files(true, false), DisplayDecision::ServeFile));
    assert!(matches!(display_files(true, true), DisplayDecision::ListDirectory));
}

#[test]
fn failed_listing_page() {
    let p = listing_or_error(&path(&["a", "b"]), Err("boom".to_string()));
    assert!(p.dir_content.is_empty() && p.parrent_dir_path.is_none());
    assert_eq!(p.current, "a/b");
    let e = p.error_block.unwrap();
    assert_eq!((e.error.as_str(), e.message.as_str()), ("An Error ocurred", "boom"));
    assert!(e.options.is_none());
}

#[test]
fn create_folder_outcomes() {
    assert!(create_folder(listing(), true, None).error_block.is_none());
    let e = create_folder(listing(), true, Some("EPERM".to_string())).error_block.unwrap();
    assert_eq!(e.error, "Could not change owner of Folder");
    assert_eq!(e.message, "The folder was created but might not be writable. EPERM.");
    let e = create_folder(listing(), false, None).error_block.unwrap();
    assert_eq!(e.error, "Could not create Folder");
    assert_eq!(e.message, "What would you like to do?");
    let o = e.options.unwrap();
    assert_eq!((o[0].location.as_str(), o[0].name.as_str()), ("/files/", "Back to root"));
}

#[test]
fn upload_target_names() {
    assert_eq!(add_file_at("./home/bob/docs", Some("report.pdf")), Ok("./home/bob/docs/report".to_string()));
    assert_eq!(add_file_at("./home/bob/docs", Some("../../etc/passwd")), Ok("./home/bob/docs/passwd".to_string()));
    assert_eq!(add_file_at("./home/bob/docs", Some("//./.<>")), Err("Illegale filename".to_string()));
    assert_eq!(add_file_at("./home/bob/docs", None), Err("Error getting filename".to_string()));
}

#[test]
fn upload_outcomes() {
    assert_eq!(file_saved(false, true), Err("File could not save file".to_string()));
    assert_eq!(file_saved(true, false), Err("Could not change owner of file".to_string()));
    assert_eq!(file_saved(true, true), Ok(()));
    assert!(upload_file(listing(), Ok(())).error_block.is_none());
    let e = upload_file(listing(), Err("disk full".to_string())).error_block.unwrap();
    assert_eq!((e.error.as_str(), e.message.as_str()), ("Could not save file", "disk full"));
}

#[test]
fn deletion_outcomes() {
    assert_eq!(deletion_parent(&path(&["a", "b"])).to_path_string(), "a");
    assert_eq!(deletion_parent(&RequestPath::root()).to_path_string(), "");
    let refused = deleate_file(&RequestPath::root(), listing()).err().unwrap();
    let e = refused.error_block.unwrap();
    assert_eq!(e.error, "Cant remove root");
    assert!(deleate_file(&path(&["a"]), listing()).is_ok());
    assert_eq!(deleat_file_at(true), Ok(()));
    assert_eq!(deleat_file_at(false), Err("Could not deleate file".to_string()));
    let e = deletion_failed(listing(), "x".to_string()).error_block.unwrap();
    assert_eq!((e.error.as_str(), e.message.as_str()), ("Could not deleate file", "x"));
}

#[test]
fn path_text_splits_back_into_segments() {
    let p = path(&["docs", "x", "f.txt"]);
    let text = p.to_path_string();
    let parts: Vec<&str> = text.split('/').collect();
    assert_eq!(parts, vec!["docs", "x", "f.txt"]);
}

#[test]
fn session_root_refuses_names_leaving_the_homes() {
    for bad in ["/etc", "../x", "a/b", "", ".", ".."] {
        assert!(get_session_root(None, bad).is_none());
        assert!(!home_name_ok(bad));
    }
    assert_eq!(get_session_root(None, ".bob").as_deref(), Some("./data/user-home/.bob"));
    assert_eq!(get_session_root(None, "a:b").as_deref(), Some("./data/user-home/a:b"));
    assert!(home_name_ok("alice.b"));
    assert_ne!(get_session_root(None, "ann"), get_session_root(None, "anna"));
}

#[test]
fn new_folders_stay_in_their_directory() {
    assert_eq!(new_folder_path("./data/user-home/bob/docs", "new").as_deref(), Some("./data/user-home/bob/docs/new"));
    assert_eq!(new_folder_path("./data/user-home/bob", ".x").as_deref(), Some("./data/user-home/bob/.x"));
    assert_eq!(new_folder_path("./data/user-home/bob", "a/b").as_deref(), Some("./data/user-home/bob/a/b"));
    assert_eq!(new_folder_path("./data/user-home/bob", "..x").as_deref(), Some("./data/user-home/bob/..x"));
    for bad in ["../alice", "/etc", "..", "a/../b", "a/.."] {
        assert!(new_folder_path("./data/user-home/bob", bad).is_none());
    }
}
