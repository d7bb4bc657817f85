# vrc_get_gui

The Unity launcher support of the vrc-get desktop app, with its logic
verified by Verus.

- `src/` is the verified library:
  - `cmd_line` quotes the name, path and arguments of a `cmd.exe /c start`
    command line; each quoted argument is proved to stay one quoted token
    (quotes only as `""` pairs, `%` only in `%%cd:~,%`, no newline);
  - `win_path` models Windows paths as components, joins them as a
    Windows path push does (a prefix replaces the path, a root keeps only
    the prefix, a push onto a verbatim path resolves `.` and `..`), and
    compares project paths regardless of ASCII case, separators and
    verbatim prefixes;
  - `unity_state` keeps which projects are being opened (with a timeout)
    and the short-lived cache of ready editors;
  - `unity_process` recognizes running Unity editors;
  - `os` and `os_info` hold the decisions of the Windows helpers (window
    recognition, bringing a window to the front, lock probing, the
    application-data folder, the operating-system description).
- `app/` performs the operating-system calls (process table, file system,
  clock, Win32 windows and locks, WMI) and hands the results to the library.
- `tests/` exercises the library on concrete values.

Timestamps are monotonic nanoseconds; paths travel as their encoded bytes,
split into components where they are compared.
