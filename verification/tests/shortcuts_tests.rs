use dynamic_island::shortcuts::{
    add_shortcut, find_shortcut, insert_shortcut, make_shortcut, open_shortcut,
    refresh_shortcut, refresh_shortcuts, remove_shortcut, shortcut_kind, ShortcutItem,
    ShortcutLaunch,
};

fn item(id: &str, name: &str, path: &str, kind: &str) -> ShortcutItem {
    ShortcutItem {
        id: id.to_string(),
        name: name.to_string(),
        path: path.to_string(),
        icon: None,
        kind: kind.to_string(),
    }
}

#[test]
fn kinds() {
    assert_eq!(shortcut_kind(true, Some("exe")), "folder");
    assert_eq!(shortcut_kind(false, Some("exe")), "app");
    assert_eq!(shortcut_kind(false, Some("EXE")), "file");
    assert_eq!(shortcut_kind(false, Some("txt")), "file");
    assert_eq!(shortcut_kind(false, None), "file");
}

#[test]
fn made_shortcut_names() {
    let f = make_shortcut("1".into(), "/home/u/proj/src".into(), true, None, None, Some("proj"), Some("src"));
    assert_eq!((f.name.as_str(), f.kind.as_str()), ("proj", "folder"));
    let a = make_shortcut("2".into(), "/bin/tool.exe".into(), false, None, Some("exe"), Some("bin"), Some("tool"));
    assert_eq!((a.name.as_str(), a.kind.as_str()), ("tool", "app"));
    let n = make_shortcut("3".into(), "/".into(), true, Some("icon".into()), None, None, None);
    assert_eq!(n.name, "/");
    assert_eq!(n.icon.as_deref(), Some("icon"));
}

#[test]
fn add_shortcut_once_per_path() {
    let mut v: Vec<ShortcutItem> = Vec::new();
    assert!(add_shortcut(&mut v, "/home/u/proj/src".to_string(), true, None));
    assert_eq!(v.len(), 1);
    assert_eq!(v[0].kind, "folder");
    assert_eq!(v[0].name, "proj");
    assert_eq!(v[0].id.len(), 36);
    assert!(!add_shortcut(&mut v, "/home/u/proj/src".to_string(), false, None));
    assert_eq!(v.len(), 1);
    assert!(add_shortcut(&mut v, "/opt/tool.exe".to_string(), false, Some("data:x".into())));
    assert_eq!(v[1].kind, "app");
    assert_eq!(v[1].name, "tool");
    assert_eq!(v[1].icon.as_deref(), Some("data:x"));
    assert!(add_shortcut(&mut v, "/opt/readme.md".to_string(), false, None));
    assert_eq!(v[2].kind, "file");
    assert_eq!(v[2].name, "readme");
    assert_ne!(v[0].id, v[1].id);
}

#[test]
fn insert_skips_known_path() {
    let mut v = vec![item("a", "A", "/a", "file")];
    assert!(!insert_shortcut(&mut v, item("b", "B", "/a", "file")));
    assert!(insert_shortcut(&mut v, item("b", "B", "/b", "file")));
    assert_eq!(v.len(), 2);
}

#[test]
fn remove_by_id() {
    let mut v = vec![item("a", "A", "/a", "file"), item("b", "B", "/b", "file"), item("a", "C", "/c", "file")];
    remove_shortcut(&mut v, "a");
    assert_eq!(v.len(), 1);
    assert_eq!(v[0].id, "b");
    remove_shortcut(&mut v, "zzz");
    assert_eq!(v.len(), 1);
}

#[test]
fn open_by_id() {
    let v = vec![item("a", "A", "/a.exe", "app"), item("b", "B", "/b", "folder")];
    assert!(matches!(open_shortcut(&v, "a"), Ok(ShortcutLaunch::StartProgram(p)) if p == "/a.exe"));
    assert!(matches!(open_shortcut(&v, "b"), Ok(ShortcutLaunch::OpenWithShell(p)) if p == "/b"));
    match open_shortcut(&v, "c") {
        Err(e) => assert_eq!(e, "Shortcut not found"),
        Ok(_) => panic!("expected an error"),
    }
    assert_eq!(find_shortcut(&v, "b"), Some(1));
    assert_eq!(find_shortcut(&v, "x"), None);
}

#[test]
fn refresh_one() {
    let f = item("a", "old", "/x/y/z", "folder");
    let (s, c) = refresh_shortcut(&f, Some("y"), &None);
    assert!(c);
    assert_eq!(s.name, "y");
    let (s, c) = refresh_shortcut(&s, Some("y"), &None);
    assert!(!c);
    assert_eq!(s.name, "y");
    let (s, c) = refresh_shortcut(&s, Some("y"), &Some("icon".to_string()));
    assert!(c);
    assert_eq!(s.icon.as_deref(), Some("icon"));
    let (_, c) = refresh_shortcut(&s, Some("y"), &Some("icon".to_string()));
    assert!(!c);
    let file = item("b", "b", "/x/b.txt", "file");
    let (s, c) = refresh_shortcut(&file, Some("x"), &None);
    assert!(!c);
    assert_eq!(s.name, "b");
}

#[test]
fn refresh_all() {
    let v = vec![item("a", "old", "/x/y/z", "folder"), item("b", "b", "/x/b.txt", "file")];
    let (out, changed) = refresh_shortcuts(&v, &vec![None, None]);
    assert!(changed);
    assert_eq!(out[0].name, "y");
    assert_eq!(out[1].name, "b");
    let (_, changed) = refresh_shortcuts(&out, &vec![None, None]);
    assert!(!changed);
}

#[test]
fn folder_named_after_its_parent_directory() {
    let mut v: Vec<ShortcutItem> = Vec::new();
    assert!(add_shortcut(&mut v, "/data/photos/2024".to_string(), true, None));
    assert_eq!(v[0].name, "photos");
    assert!(add_shortcut(&mut v, "/".to_string(), true, None));
    assert_eq!(v[1].name, "/");
    assert!(add_shortcut(&mut v, "/data/notes.tar.gz".to_string(), false, None));
    assert_eq!(v[2].name, "notes.tar");
    assert_eq!(v[2].kind, "file");
}

#[test]
fn plain_names_split_at_their_final_dot() {
    let mut v: Vec<ShortcutItem> = Vec::new();
    assert!(add_shortcut(&mut v, "setup.exe".to_string(), false, None));
    assert_eq!((v[0].name.as_str(), v[0].kind.as_str()), ("setup", "app"));
    assert!(add_shortcut(&mut v, ".bashrc".to_string(), false, None));
    assert_eq!((v[1].name.as_str(), v[1].kind.as_str()), (".bashrc", "file"));
    assert!(add_shortcut(&mut v, "archive.tar.gz".to_string(), false, None));
    assert_eq!((v[2].name.as_str(), v[2].kind.as_str()), ("archive.tar", "file"));
    assert!(add_shortcut(&mut v, "music".to_string(), true, None));
    assert_eq!((v[3].name.as_str(), v[3].kind.as_str()), ("music", "folder"));
    let (out, changed) = refresh_shortcuts(&v, &vec![None, None, None, None]);
    assert!(!changed);
    assert_eq!(out[3].name, "music");
}

#[test]
fn simple_paths_name_their_last_parts() {
    let mut v: Vec<ShortcutItem> = Vec::new();
    assert!(add_shortcut(&mut v, "docs/report.final.pdf".to_string(), false, None));
    assert_eq!((v[0].name.as_str(), v[0].kind.as_str()), ("report.final", "file"));
    assert!(add_shortcut(&mut v, "work/projects/site".to_string(), true, None));
    assert_eq!((v[1].name.as_str(), v[1].kind.as_str()), ("projects", "folder"));
    assert!(add_shortcut(&mut v, "/apps/editor.exe".to_string(), false, None));
    assert_eq!((v[2].name.as_str(), v[2].kind.as_str()), ("editor", "app"));
    assert!(add_shortcut(&mut v, "/media".to_string(), true, None));
    assert_eq!(v[3].name, "/media");
    let mut stale = v.clone();
    stale[1].name = "old".to_string();
    let (out, changed) = refresh_shortcuts(&stale, &vec![None, None, None, None]);
    assert!(changed);
    assert_eq!(out[1].name, "projects");
    assert_eq!(out[3].name, "/media");
}
