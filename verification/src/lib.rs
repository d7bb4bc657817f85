//! Verified core of the Unity launcher support of the vrc-get desktop app:
//! quoting of `cmd.exe` command lines, Windows path comparison, the
//! bookkeeping of projects that are being opened, and the pure decisions
//! behind the operating-system helpers.

pub mod seq_util;
pub mod cmd_line;
pub mod win_path;
pub mod unity_state;
pub mod unity_process;
pub mod os;
pub mod os_info;
