//! Decisions of the Windows helpers: recognizing the Unity editor window,
//! bringing it to the front, probing whether a file is locked, describing
//! the operating system, and locating the roaming application-data folder.
//!
//! The helpers alternate calls into the operating system with decisions; the
//! decisions live here as functions from what a call reported to what is
//! done next.

use vstd::prelude::*;
use vstd::string::*;
use vstd::utf8::*;
use crate::seq_util::{bytes_equal, push_all};
use crate::win_path::PathComponent;
use crate::os_info::{decode_utf16_lossy, utf16_lossy};

verus! {

/// Whether the two strings hold the same characters.
pub fn str_equal(a: &str, b: &str) -> (r: bool)
    ensures
        r == (a@ == b@),
{
    broadcast use encode_utf8_decode_utf8;

    let r = bytes_equal(a.as_bytes(), b.as_bytes());
    assert(decode_utf8(encode_utf8(a@)) == a@);
    assert(decode_utf8(encode_utf8(b@)) == b@);
    r
}

/// The window class of the Unity editor's main window.
pub const UNITY_EDITOR_WINDOW_CLASS: &'static str = "UnityContainerWndClass";

/// The characters of [`UNITY_EDITOR_WINDOW_CLASS`].
pub open spec fn unity_editor_window_class() -> Seq<char> {
    seq!['U', 'n', 'i', 't', 'y', 'C', 'o', 'n', 't', 'a', 'i', 'n', 'e', 'r', 'W', 'n', 'd', 'C', 'l', 'a', 's', 's']
}

/// Whether a window with this class name, visibility and menu is the Unity
/// editor's main window: it is visible, has a menu, and its class is
/// `UnityContainerWndClass` (which rules out the splash screen and the
/// utility windows).
pub fn is_unity_editor_window_metadata(class_name: &str, visible: bool, has_menu: bool) -> (r: bool)
    ensures
        r == (visible && has_menu && class_name@ == unity_editor_window_class()),
{
    let expected = UNITY_EDITOR_WINDOW_CLASS;
    proof {
        reveal_strlit("UnityContainerWndClass");
        assert(expected@ =~= unity_editor_window_class());
    }
    visible && has_menu && str_equal(class_name, expected)
}

/// Whether a window whose class name has the UTF-16 units `class_name` is
/// the Unity editor's main window, the name decoded as
/// `String::from_utf16_lossy` decodes it.
pub fn is_unity_editor_window_class(class_name: &[u16], visible: bool, has_menu: bool) -> (r: bool)
    ensures
        r == (visible && has_menu && utf16_lossy(class_name@) == unity_editor_window_class()),
{
    let name = decode_utf16_lossy(class_name);
    is_unity_editor_window_metadata(name.as_str(), visible, has_menu)
}

/// Whether files on the volume of `path` cannot be executed; never the case
/// on Windows.
pub fn is_noexec(path: &[u8]) -> (r: bool)
    ensures
        !r,
{
    false
}

/// Where the parent of a path ends in its text, as `Path::parent` finds
/// it, given each component with the offset at which it ends: the end of
/// the component before the last one (the start, when there is only one),
/// provided the last one is a name, `.` or `..`; nothing when the path is
/// empty or ends in a root or prefix.
pub open spec fn parent_end(path: Seq<(PathComponent, usize)>) -> Option<int> {
    if path.len() > 0 && (path.last().0 is Normal || path.last().0 is CurDir || path.last().0 is ParentDir) {
        if path.len() == 1 {
            Some(0)
        } else {
            Some(path[path.len() - 2].1 as int)
        }
    } else {
        None
    }
}

/// The offsets are those of the components of one path: none lies past
/// the end of the text, and a name, `.` or `..` ends after the component
/// before it (the first one after the start of the text).
pub open spec fn well_located(path: Seq<(PathComponent, usize)>, text_len: int) -> bool {
    &&& forall|i: int| 0 <= i < path.len() ==> #[trigger] path[i].1 <= text_len
    &&& forall|i: int|
        0 <= i < path.len() && (path[i].0 is Normal || path[i].0 is CurDir || path[i].0 is ParentDir)
            ==> (if i == 0 {
            #[trigger] path[i].1 > 0
        } else {
            path[i].1 > path[i - 1].1
        })
}

/// The roaming application-data folder, given the text of the local one
/// (`AppData\Local`) and its components, each with the offset at which it
/// ends in that text: the text cut where its parent ends, or empty when it
/// has no parent. The result is always empty or a proper prefix of the
/// text.
pub fn app_data(local_app_data: &[u8], components: &[(PathComponent, usize)]) -> (r: Vec<u8>)
    requires
        well_located(components@, local_app_data@.len() as int),
    ensures
        r@ == match parent_end(components@) {
            Some(end) => local_app_data@.take(end),
            None => Seq::empty(),
        },
        r@.len() == 0 || (r@ == local_app_data@.take(r@.len() as int) && r@.len() < local_app_data@.len()),
{
    let n = components.len();
    if n == 0 {
        return Vec::new();
    }
    let end = match &components[n - 1].0 {
        PathComponent::Normal(_) | PathComponent::CurDir | PathComponent::ParentDir => {
            if n == 1 {
                0
            } else {
                components[n - 2].1
            }
        },
        _ => {
            return Vec::new();
        },
    };
    let (parent, _) = local_app_data.split_at(end);
    let mut out: Vec<u8> = Vec::new();
    push_all(&mut out, parent);
    assert(out@ =~= local_app_data@.take(end as int));
    proof {
        assert(components@[n - 1].1 <= local_app_data@.len());
        if n >= 2 {
            assert(components@[n - 2].1 < components@[n - 1].1);
        }
    }
    out
}

/// What became of the latest step of bringing the Unity editor to the
/// front.
pub enum FrontEvent {
    /// The editor window of the project was looked for.
    Searched { found: bool },
    /// The window was checked for being minimized.
    Inspected { minimized: bool },
    /// The window was restored from being minimized.
    Restored,
    /// Making the window the foreground window was tried.
    ForegroundSet { succeeded: bool },
    /// The window's taskbar button was flashed.
    Flashed,
}

/// How an attempt to bring the Unity editor to the front ended.
#[derive(Clone, Copy, Debug, PartialEq, Eq, Structural)]
pub enum BringUnityToFrontResult {
    BroughtToFront,
    AttentionRequested,
    WindowNotFound,
    Unsupported,
}

/// What to do next when bringing the Unity editor to the front.
#[derive(Clone, Copy, Debug, PartialEq, Eq, Structural)]
pub enum FrontAction {
    /// Check whether the window is minimized.
    Inspect,
    /// Restore the minimized window.
    Restore,
    /// Try to make it the foreground window.
    SetForeground,
    /// Flash its taskbar button to request attention.
    Flash,
    /// Stop and report this result.
    Finish(BringUnityToFrontResult),
}

/// The next step of bringing the Unity editor to the front.
pub open spec fn front_step_spec(event: FrontEvent) -> FrontAction {
    match event {
        FrontEvent::Searched { found } => if found {
            FrontAction::Inspect
        } else {
            FrontAction::Finish(BringUnityToFrontResult::WindowNotFound)
        },
        FrontEvent::Inspected { minimized } => if minimized {
            FrontAction::Restore
        } else {
            FrontAction::SetForeground
        },
        FrontEvent::Restored => FrontAction::SetForeground,
        FrontEvent::ForegroundSet { succeeded } => if succeeded {
            FrontAction::Finish(BringUnityToFrontResult::BroughtToFront)
        } else {
            FrontAction::Flash
        },
        FrontEvent::Flashed => FrontAction::Finish(BringUnityToFrontResult::AttentionRequested),
    }
}

/// Decides the next step of bringing the Unity editor to the front from what
/// the last one reported: a window that is not found ends the attempt, a
/// minimized one is restored first, and when it cannot be made the
/// foreground window its taskbar button is flashed instead.
pub fn front_step(event: FrontEvent) -> (r: FrontAction)
    ensures
        r == front_step_spec(event),
{
    match event {
        FrontEvent::Searched { found } => if found {
            FrontAction::Inspect
        } else {
            FrontAction::Finish(BringUnityToFrontResult::WindowNotFound)
        },
        FrontEvent::Inspected { minimized } => if minimized {
            FrontAction::Restore
        } else {
            FrontAction::SetForeground
        },
        FrontEvent::Restored => FrontAction::SetForeground,
        FrontEvent::ForegroundSet { succeeded } => if succeeded {
            FrontAction::Finish(BringUnityToFrontResult::BroughtToFront)
        } else {
            FrontAction::Flash
        },
        FrontEvent::Flashed => FrontAction::Finish(BringUnityToFrontResult::AttentionRequested),
    }
}

/// The result of the whole attempt when the window was or was not found, was
/// or was not minimized, and could or could not be made the foreground
/// window, following the steps of [`front_step`] from the search on.
pub open spec fn front_outcome(found: bool, minimized: bool, foreground_ok: bool) -> BringUnityToFrontResult {
    let a1 = front_step_spec(FrontEvent::Searched { found });
    if a1 is Finish {
        a1->Finish_0
    } else {
        let a2 = front_step_spec(FrontEvent::Inspected { minimized });
        let a3 = if a2 is Restore {
            front_step_spec(FrontEvent::Restored)
        } else {
            a2
        };
        let a4 = front_step_spec(FrontEvent::ForegroundSet { succeeded: foreground_ok });
        if a3 is SetForeground && a4 is Finish {
            a4->Finish_0
        } else {
            front_step_spec(FrontEvent::Flashed)->Finish_0
        }
    }
}

/// Bringing the editor to the front reports `WindowNotFound` when there is no
/// window, `BroughtToFront` when the window became the foreground window,
/// and `AttentionRequested` otherwise, whether it was minimized or not.
pub proof fn lemma_front_outcome(found: bool, minimized: bool, foreground_ok: bool)
    ensures
        front_outcome(found, minimized, foreground_ok) == if !found {
            BringUnityToFrontResult::WindowNotFound
        } else if foreground_ok {
            BringUnityToFrontResult::BroughtToFront
        } else {
            BringUnityToFrontResult::AttentionRequested
        },
{
}

/// The Win32 error a file open fails with when another process holds the
/// file without sharing it (`ERROR_SHARING_VIOLATION`).
pub const ERROR_SHARING_VIOLATION: i32 = 32;

/// The `HRESULT` a byte-range lock fails with when another process holds a
/// lock on the range (`ERROR_LOCK_VIOLATION`, 33, as an `HRESULT`).
pub const HRESULT_LOCK_VIOLATION: i32 = -2147024863;

/// What became of the latest step of probing whether a file is locked.
pub enum LockProbeEvent {
    /// The file was opened for reading.
    Opened,
    /// Opening failed, with this raw operating-system error code if any.
    OpenFailed { os_error: Option<i32> },
    /// An exclusive lock on the whole file was taken.
    Locked,
    /// Taking the lock failed with this `HRESULT`.
    LockFailed { hresult: i32 },
    /// The lock was released.
    Unlocked,
    /// Releasing the lock failed.
    UnlockFailed,
}

/// What to do next when probing whether a file is locked.
#[derive(Clone, Copy, Debug, PartialEq, Eq, Structural)]
pub enum LockProbeAction {
    /// Try to take an exclusive, non-blocking lock on the whole file.
    Lock,
    /// Release the lock just taken.
    Unlock,
    /// Stop: the file is locked (`true`) or not (`false`).
    Report(bool),
    /// Stop and report the error of the last step.
    Fail,
}

/// The next step of probing whether a file is locked.
pub open spec fn lock_probe_step_spec(event: LockProbeEvent) -> LockProbeAction {
    match event {
        LockProbeEvent::Opened => LockProbeAction::Lock,
        LockProbeEvent::OpenFailed { os_error } => if os_error == Some(ERROR_SHARING_VIOLATION) {
            LockProbeAction::Report(true)
        } else {
            LockProbeAction::Fail
        },
        LockProbeEvent::Locked => LockProbeAction::Unlock,
        LockProbeEvent::LockFailed { hresult } => if hresult == HRESULT_LOCK_VIOLATION {
            LockProbeAction::Report(true)
        } else {
            LockProbeAction::Fail
        },
        LockProbeEvent::Unlocked => LockProbeAction::Report(false),
        LockProbeEvent::UnlockFailed => LockProbeAction::Fail,
    }
}

/// Decides the next step of probing whether a file is locked: a file that
/// cannot be opened because of a sharing violation is locked, as is one on
/// which the lock fails because of a lock violation; a file that can be
/// locked is unlocked again and reported as not locked; any other failure
/// is an error.
pub fn lock_probe_step(event: LockProbeEvent) -> (r: LockProbeAction)
    ensures
        r == lock_probe_step_spec(event),
{
    match event {
        LockProbeEvent::Opened => LockProbeAction::Lock,
        LockProbeEvent::OpenFailed { os_error } => match os_error {
            Some(code) => if code == ERROR_SHARING_VIOLATION {
                LockProbeAction::Report(true)
            } else {
                LockProbeAction::Fail
            },
            None => LockProbeAction::Fail,
        },
        LockProbeEvent::Locked => LockProbeAction::Unlock,
        LockProbeEvent::LockFailed { hresult } => if hresult == HRESULT_LOCK_VIOLATION {
            LockProbeAction::Report(true)
        } else {
            LockProbeAction::Fail
        },
        LockProbeEvent::Unlocked => LockProbeAction::Report(false),
        LockProbeEvent::UnlockFailed => LockProbeAction::Fail,
    }
}

/// A file is reported locked exactly when another process keeps it from
/// being opened (sharing violation) or from being locked (lock violation),
/// and reported unlocked only after a lock was taken and released again.
pub proof fn lemma_lock_probe_reports(event: LockProbeEvent)
    ensures
        lock_probe_step_spec(event) == LockProbeAction::Report(true) <==> (event == LockProbeEvent::OpenFailed {
            os_error: Some(ERROR_SHARING_VIOLATION),
        } || event == LockProbeEvent::LockFailed { hresult: HRESULT_LOCK_VIOLATION }),
        lock_probe_step_spec(event) == LockProbeAction::Report(false) <==> event is Unlocked,
{
}

} // verus!
