use vrc_get_gui::os::app_data;
use vrc_get_gui::win_path::{
    normalize_first_component, normalize_windows_path, paths_match, push_path, PathComponent, PathPrefix,
};

fn disk(letter: u8, raw: &str) -> PathComponent {
    PathComponent::Prefix(PathPrefix::Disk(letter), raw.as_bytes().to_vec())
}

fn verbatim_disk(letter: u8, raw: &str) -> PathComponent {
    PathComponent::Prefix(PathPrefix::VerbatimDisk(letter), raw.as_bytes().to_vec())
}

fn unc(server: &str, share: &str, raw: &str) -> PathComponent {
    PathComponent::Prefix(
        PathPrefix::Unc(server.as_bytes().to_vec(), share.as_bytes().to_vec()),
        raw.as_bytes().to_vec(),
    )
}

fn verbatim_unc(server: &str, share: &str, raw: &str) -> PathComponent {
    PathComponent::Prefix(
        PathPrefix::VerbatimUnc(server.as_bytes().to_vec(), share.as_bytes().to_vec()),
        raw.as_bytes().to_vec(),
    )
}

fn name(s: &str) -> PathComponent {
    PathComponent::Normal(s.as_bytes().to_vec())
}

// r"C:\Projects\Avatar" and r"c:/projects/avatar/" as split into components.
#[test]
fn matches_windows_paths_case_insensitively_and_ignores_separator_differences() {
    let left = vec![disk(b'C', "C:"), PathComponent::RootDir, name("Projects"), name("Avatar")];
    let right = vec![disk(b'C', "c:"), PathComponent::RootDir, name("projects"), name("avatar")];
    assert!(paths_match(&left, &right));
}

// r"\\?\C:\Projects\Avatar" and r"C:\Projects\Avatar".
#[test]
fn matches_verbatim_disk_paths() {
    let left = vec![verbatim_disk(b'C', r"\\?\C:"), PathComponent::RootDir, name("Projects"), name("Avatar")];
    let right = vec![disk(b'C', "C:"), PathComponent::RootDir, name("Projects"), name("Avatar")];
    assert!(paths_match(&left, &right));
}

// r"\\?\UNC\server\share\Avatar" and r"\\server\share\Avatar".
#[test]
fn matches_verbatim_unc_paths() {
    let left = vec![verbatim_unc("server", "share", r"\\?\UNC\server\share"), PathComponent::RootDir, name("Avatar")];
    let right = vec![unc("server", "share", r"\\server\share"), PathComponent::RootDir, name("Avatar")];
    assert!(paths_match(&left, &right));
}

#[test]
fn different_projects_do_not_match() {
    let left = vec![disk(b'C', "C:"), PathComponent::RootDir, name("Projects"), name("Avatar")];
    let right = vec![disk(b'C', "C:"), PathComponent::RootDir, name("Projects"), name("World")];
    assert!(!paths_match(&left, &right));
    let other_drive = vec![disk(b'D', "D:"), PathComponent::RootDir, name("Projects"), name("Avatar")];
    assert!(!paths_match(&left, &other_drive));
    let relative = vec![disk(b'C', "C:"), name("Projects"), name("Avatar")];
    assert!(!paths_match(&left, &relative));
}

#[test]
fn empty_paths_match_each_other_only() {
    assert!(paths_match(&[], &[]));
    assert!(!paths_match(&[], &[name("a")]));
}

#[test]
fn normalizes_prefixes_and_joins_with_backslashes() {
    let path = vec![verbatim_disk(b'C', r"\\?\C:"), PathComponent::RootDir, name("Projects"), name("Avatar")];
    assert_eq!(normalize_windows_path(&path), br"C:\Projects\Avatar".to_vec());
    let path = vec![verbatim_unc("server", "share", r"\\?\UNC\server\share"), PathComponent::RootDir, name("Avatar")];
    assert_eq!(normalize_windows_path(&path), br"\\server\share\Avatar".to_vec());
    let drive_relative = vec![disk(b'C', "c:"), name("foo"), name("bar")];
    assert_eq!(normalize_windows_path(&drive_relative), br"C:foo\bar".to_vec());
    let dots = vec![PathComponent::CurDir, PathComponent::ParentDir, name("x")];
    assert_eq!(normalize_windows_path(&dots), br".\..\x".to_vec());
    let verbatim = vec![
        PathComponent::Prefix(PathPrefix::Verbatim(b"pipe".to_vec()), br"\\?\pipe".to_vec()),
        PathComponent::RootDir,
        name("x"),
    ];
    assert_eq!(normalize_windows_path(&verbatim), br"\\?\pipe\x".to_vec());
}

#[test]
fn normalizes_the_first_component() {
    assert_eq!(normalize_first_component(&verbatim_disk(b'Z', r"\\?\Z:")), b"Z:".to_vec());
    assert_eq!(normalize_first_component(&unc("srv", "data", r"\\srv\data")), br"\\srv\data".to_vec());
    assert_eq!(normalize_first_component(&PathComponent::RootDir), br"\".to_vec());
    assert_eq!(normalize_first_component(&name("Avatar")), b"Avatar".to_vec());
    // A drive byte above ASCII is written as the character of that code point.
    assert_eq!(normalize_first_component(&disk(0xE9, "x")), "\u{e9}:".as_bytes().to_vec());
}

fn located(text: &str, parts: Vec<(PathComponent, usize)>) -> Vec<u8> {
    app_data(text.as_bytes(), &parts)
}

#[test]
fn app_data_is_the_parent_of_local_app_data() {
    // r"C:\Users\me\AppData\Local"
    let parts = vec![
        (disk(b'C', "C:"), 2),
        (PathComponent::RootDir, 3),
        (name("Users"), 8),
        (name("me"), 11),
        (name("AppData"), 19),
        (name("Local"), 25),
    ];
    assert_eq!(located(r"C:\Users\me\AppData\Local", parts), br"C:\Users\me\AppData".to_vec());
}

#[test]
fn app_data_keeps_the_text_as_written() {
    // "C:/Users//u/AppData/Local/": separators and doubled ones are kept.
    let parts = vec![
        (disk(b'C', "C:"), 2),
        (PathComponent::RootDir, 3),
        (name("Users"), 8),
        (name("u"), 11),
        (name("AppData"), 19),
        (name("Local"), 25),
    ];
    assert_eq!(located("C:/Users//u/AppData/Local/", parts), b"C:/Users//u/AppData".to_vec());
}

#[test]
fn app_data_is_empty_without_a_parent() {
    assert_eq!(located(r"C:\", vec![(disk(b'C', "C:"), 2), (PathComponent::RootDir, 3)]), Vec::<u8>::new());
    assert_eq!(located("", vec![]), Vec::<u8>::new());
    assert_eq!(located("Local", vec![(name("Local"), 5)]), Vec::<u8>::new());
    // The parent of a root directory's child is the root itself.
    assert_eq!(located(r"C:\x", vec![(disk(b'C', "C:"), 2), (PathComponent::RootDir, 3), (name("x"), 4)]), br"C:\".to_vec());
}

#[test]
fn resolves_dots_after_a_verbatim_prefix() {
    let prefix = || PathComponent::Prefix(PathPrefix::Verbatim(b"Volume{1}".to_vec()), br"\\?\Volume{1}".to_vec());
    let path = vec![prefix(), PathComponent::RootDir, name("a"), PathComponent::CurDir, name("b"), PathComponent::ParentDir, name("c")];
    assert_eq!(normalize_windows_path(&path), br"\\?\Volume{1}\a\c".to_vec());
    let up = vec![prefix(), name("a"), PathComponent::ParentDir];
    assert_eq!(normalize_windows_path(&up), br"\\?\Volume{1}\".to_vec());
    let only = vec![prefix(), PathComponent::ParentDir];
    assert_eq!(normalize_windows_path(&only), br"\\?\Volume{1}".to_vec());
    let same = vec![prefix(), PathComponent::RootDir, name("A"), name("c")];
    assert!(paths_match(&path, &same));
}

#[test]
fn matching_is_symmetric_and_transitive() {
    let a = vec![verbatim_disk(b'C', r"\\?\C:"), PathComponent::RootDir, name("X")];
    let b = vec![disk(b'C', "C:"), PathComponent::RootDir, name("x")];
    let c = vec![disk(b'C', "c:"), PathComponent::RootDir, name("X")];
    assert!(paths_match(&a, &b) && paths_match(&b, &a));
    assert!(paths_match(&b, &c) && paths_match(&a, &c));
    assert!(paths_match(&a, &a));
}

#[test]
fn a_unc_server_that_reads_as_a_drive_replaces_the_root() {
    // r"\\?\UNC\C:\x": pushing "C:" onto r"\\" replaces it, and "x" then follows the bare drive.
    assert_eq!(normalize_first_component(&verbatim_unc("C:", "x", r"\\?\UNC\C:\x")), b"C:x".to_vec());
    assert_eq!(normalize_first_component(&unc("C:", "x", r"\\C:\x")), b"C:x".to_vec());
}

#[test]
fn a_drive_inside_a_path_replaces_what_came_before() {
    // r"a\C:\b" as split into components.
    let path = vec![name("a"), name("C:"), name("b")];
    assert_eq!(normalize_windows_path(&path), b"C:b".to_vec());
    assert!(paths_match(&path, &[disk(b'C', "C:"), name("b")]));
    assert!(!paths_match(&path, &[disk(b'C', "C:"), PathComponent::RootDir, name("b")]));
}

#[test]
fn pushes_parts_as_windows_paths_do() {
    // A part with a root keeps only the prefix of the base.
    assert_eq!(push_path(br"C:\a", br"\b"), br"C:\b".to_vec());
    assert_eq!(push_path(br"\\server\share\a", br"\b"), br"\\server\share\b".to_vec());
    assert_eq!(push_path(b"a", br"\b"), br"\b".to_vec());
    // A part with a prefix replaces the base.
    assert_eq!(push_path(br"C:\a", b"D:x"), b"D:x".to_vec());
    assert_eq!(push_path(b"a", br"\\srv\share"), br"\\srv\share".to_vec());
    // A relative part follows a separator, but not after a bare drive.
    assert_eq!(push_path(b"C:", b"x"), b"C:x".to_vec());
    assert_eq!(push_path(b"a", b"b"), br"a\b".to_vec());
    assert_eq!(push_path(b"a/", b"b"), b"a/b".to_vec());
    assert_eq!(push_path(b"", b"b"), b"b".to_vec());
    assert_eq!(push_path(b"a", b""), br"a\".to_vec());
}

#[test]
fn pushing_onto_a_verbatim_path_resolves_dots_and_splits_at_both_separators() {
    assert_eq!(push_path(br"\\?\C:\a", b"b/../c"), br"\\?\C:\a\c".to_vec());
    assert_eq!(push_path(br"\\?\C:\a\b", br"\x"), br"\\?\C:\x".to_vec());
    assert_eq!(push_path(br"\\?\C:\a", b"./b"), br"\\?\C:\a\b".to_vec());
    assert_eq!(push_path(br"\\?\Volume{1}", b"x"), br"\\?\Volume{1}\x".to_vec());
    assert_eq!(push_path(br"\\?\UNC\srv\share\a", b".."), br"\\?\UNC\srv\share\".to_vec());
    // "." written in a verbatim path stays, since only a push resolves it.
    assert_eq!(push_path(br"\\?\C:\.\a", b"b"), br"\\?\C:\.\a\b".to_vec());
    // With a "/" among its first bytes the path is not verbatim.
    assert_eq!(push_path(b"//?/C:/a", b"../b"), br"//?/C:/a\../b".to_vec());
}
