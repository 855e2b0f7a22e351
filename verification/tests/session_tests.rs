use disgreet::session::{
    append_bash_session, find_desktop_files, is_desktop_file_name, parser_desktop_file,
    DesktopFileError, DirEntryInfo, Session,
};
use disgreet::Disgreet;

fn session(name: &str, command: &str) -> Session {
    Session { name: name.to_string(), command: command.to_string() }
}

fn names(v: &[Session]) -> Vec<(String, String)> {
    v.iter().map(|s| (s.name.clone(), s.command.clone())).collect()
}

#[test]
fn bash_session_is_appended_when_missing() {
    let mut v = vec![session("Sway", "sway")];
    append_bash_session(&mut v);
    assert_eq!(
        names(&v),
        vec![
            ("Sway".to_string(), "sway".to_string()),
            ("bash".to_string(), "/usr/bin/bash".to_string())
        ]
    );
}

#[test]
fn bash_session_is_appended_to_empty_list() {
    let mut v = Vec::new();
    append_bash_session(&mut v);
    assert_eq!(names(&v), vec![("bash".to_string(), "/usr/bin/bash".to_string())]);
}

#[test]
fn bash_session_in_any_case_is_kept() {
    let mut v = vec![session("BASH", "/bin/bash -l"), session("Sway", "sway")];
    append_bash_session(&mut v);
    assert_eq!(
        names(&v),
        vec![
            ("BASH".to_string(), "/bin/bash -l".to_string()),
            ("Sway".to_string(), "sway".to_string())
        ]
    );
}

#[test]
fn appending_bash_twice_is_appending_once() {
    let mut v = vec![session("Hyprland", "Hyprland")];
    append_bash_session(&mut v);
    let once = names(&v);
    append_bash_session(&mut v);
    assert_eq!(names(&v), once);
}

#[test]
fn desktop_file_names() {
    assert!(is_desktop_file_name("sway.desktop"));
    assert!(is_desktop_file_name("x..desktop"));
    assert!(is_desktop_file_name(".hidden.desktop"));
    assert!(!is_desktop_file_name(".desktop"));
    assert!(!is_desktop_file_name("desktop"));
    assert!(!is_desktop_file_name("sway.desktop.bak"));
    assert!(!is_desktop_file_name("sway.Desktop"));
    assert!(!is_desktop_file_name(".."));
    assert!(!is_desktop_file_name(""));
}

#[test]
fn desktop_file_names_agree_with_path_extension() {
    for name in ["a.desktop", ".desktop", "..desktop", "a.", "..", "a.b.desktop", "noext", ".x"] {
        let by_path = std::path::Path::new(name).extension().map_or(false, |e| e == "desktop");
        assert_eq!(is_desktop_file_name(name), by_path, "name {:?}", name);
    }
}

#[test]
fn parses_desktop_entry() {
    let text = "[Desktop Entry]\nName=Sway\nComment=An i3-compatible compositor\nExec=sway --unsupported-gpu\nType=Application\n";
    let s = parser_desktop_file(text).ok().unwrap();
    assert_eq!(s.name, "Sway");
    assert_eq!(s.command, "sway --unsupported-gpu");
}

#[test]
fn missing_keys_read_as_empty() {
    let s = parser_desktop_file("[Desktop Entry]\nType=Application\n").ok().unwrap();
    assert_eq!(s.name, "");
    assert_eq!(s.command, "");
}

#[test]
fn byte_order_mark_is_skipped() {
    let s = parser_desktop_file("\u{FEFF}[Desktop Entry]\nName=Niri\nExec=niri-session\n").ok().unwrap();
    assert_eq!(s.name, "Niri");
    assert_eq!(s.command, "niri-session");
}

#[test]
fn missing_section_is_reported() {
    let r = parser_desktop_file("[Other]\nName=x\n");
    match r {
        Err(e) => {
            assert!(matches!(e, DesktopFileError::NotExist));
            assert_eq!(e.message(), "Desktop Entry section not exists");
        }
        Ok(_) => panic!("expected an error"),
    }
}

#[test]
fn malformed_ini_is_reported() {
    let text = "[Desktop Entry\nName=x\n";
    let expected = ini::Ini::load_from_str(text).err().unwrap().to_string();
    match parser_desktop_file(text) {
        Err(e) => {
            assert!(matches!(e, DesktopFileError::Parse(_)));
            assert_eq!(e.message(), expected);
        }
        Ok(_) => panic!("expected an error"),
    }
}

fn entry(name: &str, is_file: bool, contents: Option<&str>) -> DirEntryInfo {
    DirEntryInfo { file_name: name.to_string(), is_file, contents: contents.map(String::from) }
}

#[test]
fn finds_sessions_among_entries() {
    let entries = vec![
        entry("sway.desktop", true, Some("[Desktop Entry]\nName=Sway\nExec=sway\n")),
        entry("notes.txt", true, Some("[Desktop Entry]\nName=No\nExec=no\n")),
        entry("dir.desktop", false, None),
        entry("broken.desktop", true, Some("[Desktop Entry\n")),
        entry("unread.desktop", true, None),
        entry("other.desktop", true, Some("[Nope]\n")),
        entry("niri.desktop", true, Some("[Desktop Entry]\nName=Niri\nExec=niri-session\n")),
    ];
    let found = find_desktop_files(&entries);
    assert_eq!(
        names(&found),
        vec![
            ("Sway".to_string(), "sway".to_string()),
            ("Niri".to_string(), "niri-session".to_string())
        ]
    );
}

#[test]
fn greeter_setup_offers_bash_last() {
    let mut d = Disgreet::new("/usr/share/backgrounds/a.png");
    assert_eq!(d.background(), "/usr/share/backgrounds/a.png");
    assert!(d.sessions().is_empty());
    assert_eq!(d.prev_username(), "");
    d.setup("alice".to_string(), vec![session("Sway", "sway")]);
    assert_eq!(d.prev_username(), "alice");
    assert_eq!(
        names(d.sessions()),
        vec![
            ("Sway".to_string(), "sway".to_string()),
            ("bash".to_string(), "/usr/bin/bash".to_string())
        ]
    );
}

#[test]
fn bash_in_mixed_case_is_kept() {
    let mut v = vec![session("Bash", "bash")];
    append_bash_session(&mut v);
    assert_eq!(names(&v), vec![("Bash".to_string(), "bash".to_string())]);
}

#[test]
fn ascii_names_are_compared_in_lower_case() {
    let mut v = vec![session("Sway", "sway"), session("bAsH", "/bin/bash")];
    append_bash_session(&mut v);
    assert_eq!(names(&v).len(), 2);
    let mut w = vec![session("Sway", "sway")];
    append_bash_session(&mut w);
    assert_eq!(names(&w).len(), 2);
}
