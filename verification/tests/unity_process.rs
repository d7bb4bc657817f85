use vrc_get_gui::unity_process::{
    collect_unity_processes, first_process_for_project, is_unity_name, is_unity_process,
    unity_process_ids_for_project, ProcessInfo, ProjectProcess,
};
use vrc_get_gui::win_path::{PathComponent, PathPrefix};

#[test]
fn matches_unity_executable_name_without_lossy_conversion() {
    assert!(is_unity_name("Unity".as_bytes()));
    assert!(is_unity_name("UNITY".as_bytes()));
    assert!(!is_unity_name("UnityShaderCompiler".as_bytes()));
}

#[test]
fn non_utf8_names_are_not_unity() {
    assert!(!is_unity_name(&[0x55, 0x6E, 0x69, 0x74, 0xFF]));
    assert!(is_unity_name(b"uNiTy"));
    assert!(!is_unity_name(b""));
}

fn process(id: u32, stem: Option<&str>, cwd: Option<&str>) -> ProcessInfo {
    ProcessInfo {
        process_id: id,
        exe_stem: stem.map(|s| s.as_bytes().to_vec()),
        cwd: cwd.map(|s| s.as_bytes().to_vec()),
    }
}

#[test]
fn recognizes_unity_processes() {
    assert!(is_unity_process(&process(1, Some("Unity"), None)));
    assert!(!is_unity_process(&process(1, None, Some("x"))));
    assert!(!is_unity_process(&process(1, Some("Unity Hub"), Some("x"))));
}

#[test]
fn collects_unity_editors_with_their_projects() {
    let processes = vec![
        process(1, Some("Unity"), Some("/p/a")),
        process(2, Some("explorer"), Some("/")),
        process(3, Some("unity"), None),
        process(4, None, Some("/p/b")),
        process(5, Some("UNITY"), Some("/p/c")),
    ];
    let found: Vec<(Vec<u8>, u32)> =
        collect_unity_processes(&processes).into_iter().map(|u| (u.project_path, u.process_id)).collect();
    assert_eq!(found, vec![(b"/p/a".to_vec(), 1), (b"/p/c".to_vec(), 5)]);
}

fn unix_path(parts: &[&str]) -> Vec<PathComponent> {
    let mut path = vec![PathComponent::RootDir];
    path.extend(parts.iter().map(|p| PathComponent::Normal(p.as_bytes().to_vec())));
    path
}

#[test]
fn finds_the_editors_of_a_project() {
    let processes = vec![
        ProjectProcess { project_path: unix_path(&["p", "a"]), process_id: 1 },
        ProjectProcess { project_path: unix_path(&["p", "b"]), process_id: 2 },
        ProjectProcess { project_path: unix_path(&["p", "a"]), process_id: 3 },
    ];
    // "/p/a/" splits into the same components as "/p/a".
    assert_eq!(unity_process_ids_for_project(&processes, &unix_path(&["p", "a"])), vec![1, 3]);
    assert_eq!(unity_process_ids_for_project(&processes, &unix_path(&["p", "A"])), Vec::<u32>::new());
    assert_eq!(unity_process_ids_for_project(&processes, &unix_path(&["p"])), Vec::<u32>::new());
}

fn windows_path(verbatim: bool, parts: &[&str]) -> Vec<PathComponent> {
    let prefix = if verbatim {
        PathComponent::Prefix(PathPrefix::VerbatimDisk(b'C'), br"\\?\C:".to_vec())
    } else {
        PathComponent::Prefix(PathPrefix::Disk(b'C'), b"C:".to_vec())
    };
    let mut path = vec![prefix, PathComponent::RootDir];
    path.extend(parts.iter().map(|p| PathComponent::Normal(p.as_bytes().to_vec())));
    path
}

#[test]
fn finds_the_first_editor_of_a_project_as_windows_compares_paths() {
    let processes = vec![
        ProjectProcess { project_path: windows_path(false, &["Projects", "World"]), process_id: 7 },
        ProjectProcess { project_path: windows_path(true, &["projects", "AVATAR"]), process_id: 8 },
        ProjectProcess { project_path: windows_path(false, &["Projects", "Avatar"]), process_id: 9 },
    ];
    let project = windows_path(false, &["Projects", "Avatar"]);
    assert_eq!(first_process_for_project(&processes, &project), Some(8));
    assert_eq!(first_process_for_project(&processes, &windows_path(false, &["Other"])), None);
    assert_eq!(first_process_for_project(&[], &project), None);
}
