//! Recognizing running Unity editors among the processes of the system.
//!
//! The caller reads the process table and hands in, for each process, its
//! id, the file stem of its executable and its working directory (each name
//! by its encoded bytes); a Unity editor's working directory is the project
//! it has open.

use vstd::prelude::*;
use crate::win_path::{
    ascii_lower, eq_ignore_ascii_case, bytes_eq_ignore_ascii_case, clone_bytes, path_equal, path_view, paths_match,
    same_project_path, PathComponent,
};

verus! {

/// `Unity`
pub open spec fn unity_name() -> Seq<u8> {
    seq![0x55u8, 0x6E, 0x69, 0x74, 0x79]
}

/// What the library needs to know of a running process.
pub struct ProcessInfo {
    /// The process id.
    pub process_id: u32,
    /// The file stem of its executable, if known.
    pub exe_stem: Option<Vec<u8>>,
    /// Its current working directory, if known.
    pub cwd: Option<Vec<u8>>,
}

/// A running Unity editor and the project it has open.
pub struct UnityProcess {
    /// The project's path (its encoded bytes).
    pub project_path: Vec<u8>,
    /// The editor's process id.
    pub process_id: u32,
}

/// Whether an executable's file stem names Unity, in any ASCII case.
pub open spec fn is_unity_stem(stem: Seq<u8>) -> bool {
    eq_ignore_ascii_case(stem, unity_name())
}

/// Whether the process runs a Unity editor: the file stem of its
/// executable is known and is `Unity` in any ASCII case.
pub open spec fn spec_is_unity_process(p: ProcessInfo) -> bool {
    match p.exe_stem {
        Some(stem) => is_unity_stem(stem@),
        None => false,
    }
}

/// The Unity editors among `processes`, in order, as (project path,
/// process id) pairs: each process that runs Unity and whose working
/// directory is known.
pub open spec fn unity_processes(processes: Seq<ProcessInfo>) -> Seq<(Seq<u8>, u32)>
    decreases processes.len(),
{
    if processes.len() == 0 {
        Seq::empty()
    } else {
        let p = processes.last();
        let rest = unity_processes(processes.drop_last());
        if spec_is_unity_process(p) && p.cwd is Some {
            rest.push((p.cwd->0@, p.process_id))
        } else {
            rest
        }
    }
}

/// Whether the executable name `name` is `Unity`, in any ASCII case, byte
/// for byte (no lossy conversion of the name takes place).
pub fn is_unity_name(name: &[u8]) -> (r: bool)
    ensures
        r == is_unity_stem(name@),
{
    let unity: [u8; 5] = [0x55, 0x6E, 0x69, 0x74, 0x79];
    assert(unity@ =~= unity_name());
    bytes_eq_ignore_ascii_case(name, &unity)
}

/// Whether the process runs a Unity editor.
pub fn is_unity_process(process: &ProcessInfo) -> (r: bool)
    ensures
        r == spec_is_unity_process(*process),
{
    match &process.exe_stem {
        Some(stem) => is_unity_name(stem.as_slice()),
        None => false,
    }
}

/// The Unity editors among `processes`, with the projects they have open.
pub fn collect_unity_processes(processes: &[ProcessInfo]) -> (r: Vec<UnityProcess>)
    ensures
        r@.map_values(|u: UnityProcess| (u.project_path@, u.process_id)) == unity_processes(processes@),
{
    let mut out: Vec<UnityProcess> = Vec::new();
    let n = processes.len();
    let mut i: usize = 0;
    while i < n
        invariant
            n == processes@.len(),
            i <= n,
            out@.map_values(|u: UnityProcess| (u.project_path@, u.process_id)) == unity_processes(
                processes@.take(i as int),
            ),
        decreases n - i,
    {
        let ghost before = out@;
        let ghost next = processes@.take(i as int + 1);
        assert(next.drop_last() =~= processes@.take(i as int));
        assert(next.last() == processes@[i as int]);
        let p = &processes[i];
        if is_unity_process(p) {
            match &p.cwd {
                Some(cwd) => {
                    out.push(UnityProcess { project_path: clone_bytes(cwd), process_id: p.process_id });
                    assert(out@.map_values(|u: UnityProcess| (u.project_path@, u.process_id)) =~= before.map_values(
                        |u: UnityProcess| (u.project_path@, u.process_id),
                    ).push((cwd@, p.process_id)));
                },
                None => {},
            }
        }
        i = i + 1;
    }
    assert(processes@.take(n as int) =~= processes@);
    out
}

/// A Unity editor with the path of its project split into components.
pub struct ProjectProcess {
    /// The project's (canonicalized) path.
    pub project_path: Vec<PathComponent>,
    /// The editor's process id.
    pub process_id: u32,
}

/// The ids of the Unity editors whose project is `project_path`, in order,
/// the (canonicalized) paths compared component by component as path
/// equality compares them.
pub fn unity_process_ids_for_project(processes: &[ProjectProcess], project_path: &[PathComponent]) -> (r: Vec<u32>)
    ensures
        r@ == processes@.filter(|u: ProjectProcess| path_view(u.project_path@) == path_view(project_path@)).map_values(
            |u: ProjectProcess| u.process_id,
        ),
{
    let mut out: Vec<u32> = Vec::new();
    let n = processes.len();
    let mut i: usize = 0;
    while i < n
        invariant
            n == processes@.len(),
            i <= n,
            out@ == processes@.take(i as int).filter(
                |u: ProjectProcess| path_view(u.project_path@) == path_view(project_path@),
            ).map_values(|u: ProjectProcess| u.process_id),
        decreases n - i,
    {
        let ghost next = processes@.take(i as int + 1);
        assert(next.drop_last() =~= processes@.take(i as int));
        reveal_with_fuel(Seq::<_>::filter, 1);
        if path_equal(processes[i].project_path.as_slice(), project_path) {
            out.push(processes[i].process_id);
        }
        assert(out@ =~= next.filter(|u: ProjectProcess| path_view(u.project_path@) == path_view(project_path@)).map_values(
            |u: ProjectProcess| u.process_id,
        ));
        i = i + 1;
    }
    assert(processes@.take(n as int) =~= processes@);
    out
}

/// The id of the first Unity editor in `processes` whose project is
/// `project_path`, the (canonicalized) paths compared as Windows compares
/// project paths (ASCII case, separators and verbatim prefixes ignored), or
/// `None` when no editor has that project open.
pub fn first_process_for_project(processes: &[ProjectProcess], project_path: &[PathComponent]) -> (r: Option<u32>)
    ensures
        match r {
            Some(id) => exists|i: int|
                0 <= i < processes@.len() && #[trigger] processes@[i].process_id == id
                    && same_project_path(processes@[i].project_path@, project_path@)
                    && forall|j: int| 0 <= j < i ==> !same_project_path(
                        #[trigger] processes@[j].project_path@,
                        project_path@,
                    ),
            None => forall|i: int|
                0 <= i < processes@.len() ==> !same_project_path(
                    #[trigger] processes@[i].project_path@,
                    project_path@,
                ),
        },
{
    let n = processes.len();
    let mut i: usize = 0;
    while i < n
        invariant
            n == processes@.len(),
            i <= n,
            forall|j: int| 0 <= j < i ==> !same_project_path(#[trigger] processes@[j].project_path@, project_path@),
        decreases n - i,
    {
        if paths_match(processes[i].project_path.as_slice(), project_path) {
            assert(processes@[i as int].process_id == processes[i as int].process_id);
            return Some(processes[i].process_id);
        }
        i = i + 1;
    }
    None
}

/// An executable is taken for the Unity editor exactly when its file stem
/// has five bytes spelling `Unity`, each letter in either case: no longer
/// name, such as `Unity.Licensing.Client` or `UnityHub`, is.
pub proof fn lemma_unity_stem_is_exactly_unity(stem: Seq<u8>)
    ensures
        is_unity_stem(stem) <==> stem.len() == 5 && (stem[0] == 0x55 || stem[0] == 0x75) && (stem[1] == 0x4E
            || stem[1] == 0x6E) && (stem[2] == 0x49 || stem[2] == 0x69) && (stem[3] == 0x54 || stem[3] == 0x74)
            && (stem[4] == 0x59 || stem[4] == 0x79),
{
    let u = unity_name();
    if is_unity_stem(stem) {
        assert(ascii_lower(stem[0]) == ascii_lower(u[0]));
        assert(ascii_lower(stem[1]) == ascii_lower(u[1]));
        assert(ascii_lower(stem[2]) == ascii_lower(u[2]));
        assert(ascii_lower(stem[3]) == ascii_lower(u[3]));
        assert(ascii_lower(stem[4]) == ascii_lower(u[4]));
    }
    if stem.len() == 5 && (stem[0] == 0x55 || stem[0] == 0x75) && (stem[1] == 0x4E || stem[1] == 0x6E) && (
    stem[2] == 0x49 || stem[2] == 0x69) && (stem[3] == 0x54 || stem[3] == 0x74) && (stem[4] == 0x59 || stem[4]
        == 0x79) {
        assert forall|i: int| 0 <= i < stem.len() implies ascii_lower(#[trigger] stem[i]) == ascii_lower(u[i]) by {
            assert(i == 0 || i == 1 || i == 2 || i == 3 || i == 4);
        }
    }
}

} // verus!
