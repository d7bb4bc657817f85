use vrc_get_gui::os::{
    front_step, is_noexec, is_unity_editor_window_class, is_unity_editor_window_metadata, lock_probe_step, BringUnityToFrontResult, FrontAction,
    FrontEvent, LockProbeAction, LockProbeEvent, ERROR_SHARING_VIOLATION, HRESULT_LOCK_VIOLATION,
    UNITY_EDITOR_WINDOW_CLASS,
};
use vrc_get_gui::os_info::{
    describe_version_with_name, describe_windows_version, describe_wmi_os, os_description, push_decimal, WindowsVersion, WmiOperatingSystem,
};

#[test]
fn recognizes_a_visible_unity_editor_window_with_a_menu() {
    assert!(is_unity_editor_window_metadata(UNITY_EDITOR_WINDOW_CLASS, true, true));
}

#[test]
fn rejects_unity_startup_and_utility_windows() {
    assert!(!is_unity_editor_window_metadata("UnitySplashWndClass", true, true));
    assert!(!is_unity_editor_window_metadata(UNITY_EDITOR_WINDOW_CLASS, true, false));
    assert!(!is_unity_editor_window_metadata(UNITY_EDITOR_WINDOW_CLASS, false, true));
}

#[test]
fn nothing_is_noexec_on_windows() {
    assert!(!is_noexec(b"C:\\Users"));
    assert!(!is_noexec(b""));
}

fn run_front(found: bool, minimized: bool, foreground_ok: bool) -> (Vec<FrontAction>, BringUnityToFrontResult) {
    let mut actions = Vec::new();
    let mut action = front_step(FrontEvent::Searched { found });
    loop {
        actions.push(action);
        let event = match action {
            FrontAction::Finish(result) => return (actions, result),
            FrontAction::Inspect => FrontEvent::Inspected { minimized },
            FrontAction::Restore => FrontEvent::Restored,
            FrontAction::SetForeground => FrontEvent::ForegroundSet { succeeded: foreground_ok },
            FrontAction::Flash => FrontEvent::Flashed,
        };
        action = front_step(event);
    }
}

#[test]
fn brings_a_found_window_to_the_front() {
    let (actions, result) = run_front(true, true, true);
    assert_eq!(result, BringUnityToFrontResult::BroughtToFront);
    assert_eq!(
        actions,
        vec![
            FrontAction::Inspect,
            FrontAction::Restore,
            FrontAction::SetForeground,
            FrontAction::Finish(BringUnityToFrontResult::BroughtToFront)
        ]
    );
    assert_eq!(run_front(true, false, true).1, BringUnityToFrontResult::BroughtToFront);
}

#[test]
fn requests_attention_when_the_window_cannot_come_to_the_front() {
    let (actions, result) = run_front(true, false, false);
    assert_eq!(result, BringUnityToFrontResult::AttentionRequested);
    assert_eq!(
        actions,
        vec![
            FrontAction::Inspect,
            FrontAction::SetForeground,
            FrontAction::Flash,
            FrontAction::Finish(BringUnityToFrontResult::AttentionRequested)
        ]
    );
}

#[test]
fn reports_a_missing_window() {
    assert_eq!(run_front(false, true, true), (vec![FrontAction::Finish(BringUnityToFrontResult::WindowNotFound)], BringUnityToFrontResult::WindowNotFound));
}

#[test]
fn probes_locks_step_by_step() {
    assert_eq!(lock_probe_step(LockProbeEvent::Opened), LockProbeAction::Lock);
    assert_eq!(lock_probe_step(LockProbeEvent::Locked), LockProbeAction::Unlock);
    assert_eq!(lock_probe_step(LockProbeEvent::Unlocked), LockProbeAction::Report(false));
    assert_eq!(
        lock_probe_step(LockProbeEvent::OpenFailed { os_error: Some(ERROR_SHARING_VIOLATION) }),
        LockProbeAction::Report(true)
    );
    assert_eq!(lock_probe_step(LockProbeEvent::OpenFailed { os_error: Some(2) }), LockProbeAction::Fail);
    assert_eq!(lock_probe_step(LockProbeEvent::OpenFailed { os_error: None }), LockProbeAction::Fail);
    assert_eq!(
        lock_probe_step(LockProbeEvent::LockFailed { hresult: HRESULT_LOCK_VIOLATION }),
        LockProbeAction::Report(true)
    );
    assert_eq!(lock_probe_step(LockProbeEvent::LockFailed { hresult: 33 }), LockProbeAction::Fail);
    assert_eq!(lock_probe_step(LockProbeEvent::UnlockFailed), LockProbeAction::Fail);
}

#[test]
fn the_lock_violation_code_is_the_hresult_of_win32_error_33() {
    assert_eq!(HRESULT_LOCK_VIOLATION as u32, 0x8007_0021);
}

fn decimal(n: u32) -> String {
    let mut s = String::new();
    push_decimal(&mut s, n);
    s
}

#[test]
fn writes_numbers_in_decimal() {
    assert_eq!(decimal(0), "0");
    assert_eq!(decimal(7), "7");
    assert_eq!(decimal(10), "10");
    assert_eq!(decimal(22631), "22631");
    assert_eq!(decimal(u32::MAX), "4294967295");
}

fn csd(s: &str, size: usize) -> Vec<u16> {
    let mut units: Vec<u16> = s.encode_utf16().collect();
    units.resize(size, 0);
    units
}

#[test]
fn describes_the_os_from_wmi() {
    let os = WmiOperatingSystem { caption: "Microsoft Windows 11 Pro".to_string(), version: "10.0.22631".to_string() };
    assert_eq!(describe_wmi_os(&os), "Microsoft Windows 11 Pro (10.0.22631)");
    assert_eq!(os_description(Some(os), None), "Microsoft Windows 11 Pro (10.0.22631)");
}

#[test]
fn describes_the_os_from_the_kernel_version() {
    let version = WindowsVersion { major: 10, minor: 0, build: 19045, csd_version: csd("", 128) };
    assert_eq!(describe_windows_version(&version), "Windows 10.0.19045");
    let version = WindowsVersion { major: 6, minor: 1, build: 7601, csd_version: csd("Service Pack 1", 128) };
    assert_eq!(describe_windows_version(&version), "Windows 6.1.7601 (Service Pack 1)");
    let unterminated = WindowsVersion { major: 6, minor: 1, build: 7601, csd_version: "SP".encode_utf16().collect() };
    assert_eq!(describe_windows_version(&unterminated), "Windows 6.1.7601 (SP)");
    let lossy = WindowsVersion { major: 1, minor: 2, build: 3, csd_version: vec![0xD800, 0x41, 0] };
    assert_eq!(describe_windows_version(&lossy), "Windows 1.2.3 (\u{FFFD}A)");
    assert_eq!(os_description(None, Some(version)), "Windows 6.1.7601 (Service Pack 1)");
}

#[test]
fn describes_an_unknown_os() {
    assert_eq!(os_description(None, None), "Unknown");
}

#[test]
fn recognizes_the_editor_window_by_its_utf16_class_name() {
    let class: Vec<u16> = UNITY_EDITOR_WINDOW_CLASS.encode_utf16().collect();
    assert!(is_unity_editor_window_class(&class, true, true));
    assert!(!is_unity_editor_window_class(&class, true, false));
    let splash: Vec<u16> = "UnitySplashWndClass".encode_utf16().collect();
    assert!(!is_unity_editor_window_class(&splash, true, true));
    let mut broken = class.clone();
    broken.push(0xDC00);
    assert!(!is_unity_editor_window_class(&broken, true, true));
}

#[test]
fn describes_a_version_with_a_decoded_name() {
    let version = WindowsVersion { major: 10, minor: 0, build: 1, csd_version: vec![] };
    assert_eq!(describe_version_with_name(&version, ""), "Windows 10.0.1");
    assert_eq!(describe_version_with_name(&version, "SP2"), "Windows 10.0.1 (SP2)");
}

#[test]
fn decodes_surrogate_pairs_in_the_service_pack_name() {
    let units: Vec<u16> = "\u{1F600}x".encode_utf16().chain([0]).collect();
    let version = WindowsVersion { major: 1, minor: 0, build: 0, csd_version: units };
    assert_eq!(describe_windows_version(&version), "Windows 1.0.0 (\u{1F600}x)");
}
