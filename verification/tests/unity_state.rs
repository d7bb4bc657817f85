use vrc_get_gui::unity_state::{
    any_path_matches, UnityProjectState, UnityRuntimeCache, UNITY_OPENING_TIMEOUT, UNITY_RUNTIME_CACHE_TTL,
};
use vrc_get_gui::win_path::{clone_path, PathComponent, PathPrefix};

const MILLISECOND: u64 = 1_000_000;
const START: u64 = 5_000_000_000;

fn project(name: &str) -> Vec<PathComponent> {
    vec![PathComponent::Normal(name.as_bytes().to_vec())]
}

#[test]
fn only_marks_a_project_opening_once() {
    let mut state = UnityProjectState::new();
    let project = project("project");

    assert!(state.try_mark_opening_at(clone_path(&project), START));
    assert!(!state.try_mark_opening_at(project, START));
}

#[test]
fn clearing_allows_a_project_to_be_marked_again() {
    let mut state = UnityProjectState::new();
    let project = project("project");

    assert!(state.try_mark_opening_at(clone_path(&project), START));
    state.clear_opening(&project);

    assert!(state.try_mark_opening_at(project, START));
}

#[test]
fn opening_state_expires() {
    let mut state = UnityProjectState::new();
    let project = project("project");
    let started_at = START;

    assert!(state.try_mark_opening_at(clone_path(&project), started_at));
    assert!(state.is_opening_at(&project, started_at + UNITY_OPENING_TIMEOUT - MILLISECOND));
    assert!(!state.is_opening_at(&project, started_at + UNITY_OPENING_TIMEOUT));
}

#[test]
fn runtime_cache_expires_after_its_ttl() {
    let mut cache = UnityRuntimeCache::new();
    let refreshed_at = START;
    cache.complete_refresh(Some(Vec::new()), refreshed_at);

    assert!(!cache.should_refresh(refreshed_at + UNITY_RUNTIME_CACHE_TTL - MILLISECOND));
    assert!(cache.should_refresh(refreshed_at + UNITY_RUNTIME_CACHE_TTL));
}

#[test]
fn starting_a_new_launch_invalidates_runtime_cache() {
    let mut state = UnityProjectState::new();
    let project = project("project");

    state.complete_runtime_refresh(Some(vec![b"project".to_vec()]), START);

    assert!(state.try_mark_opening_at(project, START));

    let cache = state.runtime_cache();
    assert!(cache.refreshed_at().is_none());
    assert!(cache.editor_ready_projects().is_empty());
}

#[test]
fn a_failed_mark_keeps_the_runtime_cache() {
    let mut state = UnityProjectState::new();
    let project = project("project");
    assert!(state.try_mark_opening_at(clone_path(&project), START));
    state.complete_runtime_refresh(Some(vec![b"project".to_vec()]), START + 1);
    assert!(!state.try_mark_opening_at(project, START + 2));
    assert_eq!(state.runtime_cache().refreshed_at(), Some(START + 1));
    assert_eq!(state.runtime_cache().editor_ready_projects().len(), 1);
}

#[test]
fn marking_one_project_leaves_others_alone() {
    let mut state = UnityProjectState::new();
    assert!(state.try_mark_opening_at(project("a"), START));
    assert!(state.try_mark_opening_at(project("b"), START + 1));
    assert!(state.is_opening_at(&project("a"), START + 2));
    state.clear_opening(&project("b"));
    assert!(state.is_opening_at(&project("a"), START + 3));
    assert!(!state.is_opening_at(&project("b"), START + 3));
}

#[test]
fn an_expired_project_can_be_marked_again() {
    let mut state = UnityProjectState::new();
    assert!(state.try_mark_opening_at(project("a"), START));
    assert!(!state.try_mark_opening_at(project("a"), START + UNITY_OPENING_TIMEOUT - 1));
    assert!(state.try_mark_opening_at(project("a"), START + UNITY_OPENING_TIMEOUT));
}

#[test]
fn a_clock_reading_before_the_start_counts_as_no_time() {
    let mut state = UnityProjectState::new();
    assert!(state.try_mark_opening_at(project("a"), START));
    assert!(state.is_opening_at(&project("a"), 0));
}

#[test]
fn projects_are_told_apart_by_components_not_by_prefix_spelling() {
    let mut state = UnityProjectState::new();
    let plain = vec![
        PathComponent::Prefix(PathPrefix::Disk(b'C'), b"C:".to_vec()),
        PathComponent::RootDir,
        PathComponent::Normal(b"p".to_vec()),
    ];
    let lower = vec![
        PathComponent::Prefix(PathPrefix::Disk(b'C'), b"c:".to_vec()),
        PathComponent::RootDir,
        PathComponent::Normal(b"p".to_vec()),
    ];
    assert!(state.try_mark_opening_at(plain, START));
    assert!(state.is_opening_at(&lower, START));
    assert!(!state.is_opening_at(&[PathComponent::Normal(b"P".to_vec())], START));
}

#[test]
fn a_failed_refresh_leaves_no_ready_project() {
    let mut cache = UnityRuntimeCache::new();
    assert!(cache.should_refresh(0));
    cache.complete_refresh(None, START);
    assert_eq!(cache.refreshed_at(), Some(START));
    assert!(cache.editor_ready_projects().is_empty());
    cache.invalidate();
    assert!(cache.should_refresh(START));
}

#[test]
fn finds_a_ready_project_among_others() {
    let ready = vec![project("a"), project("Avatar")];
    assert!(any_path_matches(&ready, &project("AVATAR")));
    assert!(!any_path_matches(&ready, &project("world")));
    assert!(!any_path_matches(&[], &project("a")));
}

#[test]
fn a_refused_mark_keeps_the_original_start_time() {
    let mut state = UnityProjectState::new();
    assert!(state.try_mark_opening_at(project("p"), START));
    assert!(!state.try_mark_opening_at(project("p"), START + UNITY_OPENING_TIMEOUT - MILLISECOND));
    assert!(state.try_mark_opening_at(project("p"), START + UNITY_OPENING_TIMEOUT));
}
