//! The attach sequence: window lookup, handle open, path query and decode,
//! handle accounting on every exit path, and handle release.

use tf2hax_lib::os::{HandleSlot, ModuleRecord, OsState, ProcessRecord, WindowRecord};
use tf2hax_lib::process::{AttachError, Process};

fn open_handles(os: &OsState) -> usize {
    os.handles.iter().filter(|h| h.open).count()
}

fn plain_process(pid: u32, path: &[u8]) -> ProcessRecord {
    ProcessRecord {
        pid,
        open_error: None,
        path_error: None,
        path_raw: path.to_vec(),
        snapshot_error: None,
        modules: Vec::new(),
        mem_start: 0,
        mem: Vec::new(),
    }
}

fn window(title: &str, owner_pid: u32) -> WindowRecord {
    WindowRecord { title: title.to_string(), owner_pid }
}

#[test]
fn attach_missing_window_leaves_no_handles() {
    let mut os = OsState {
        windows: vec![window("Some Other Window", 4)],
        processes: vec![plain_process(4, b"C:\\other.exe\0")],
        handles: Vec::new(),
    };
    let r = Process::from_window(&mut os, "Team Fortress 2");
    assert!(matches!(r, Err(AttachError::WindowNotFound)));
    assert_eq!(open_handles(&os), 0);
    assert_eq!(os.handles.len(), 0);
}

#[test]
fn attach_success_yields_identity_and_one_handle() {
    let mut os = OsState {
        windows: vec![
            window("Editor", 3),
            window("Team Fortress 2", 7),
        ],
        processes: vec![
            plain_process(3, b"C:\\editor.exe\0"),
            plain_process(7, b"C:\\games\\tf2\\hl2.exe\0leftover bytes"),
        ],
        handles: Vec::new(),
    };
    let p = Process::from_window(&mut os, "Team Fortress 2").unwrap();
    assert_eq!(p.process_id, 7);
    assert_eq!(p.path(), Some("C:\\games\\tf2\\hl2.exe"));
    assert_eq!(p.name(), Some("hl2.exe"));
    assert_eq!(open_handles(&os), 1);
    assert!(os.handles[p.handle()].open);
}

#[test]
fn attach_exact_title_match_only() {
    let mut os = OsState {
        windows: vec![window("Team Fortress 2 - beta", 7)],
        processes: vec![plain_process(7, b"C:\\hl2.exe\0")],
        handles: Vec::new(),
    };
    let r = Process::from_window(&mut os, "Team Fortress 2");
    assert!(matches!(r, Err(AttachError::WindowNotFound)));
}

#[test]
fn attach_open_failure_reports_code_and_leaves_no_handles() {
    let mut proc = plain_process(7, b"C:\\hl2.exe\0");
    proc.open_error = Some(5);
    let mut os = OsState {
        windows: vec![window("Team Fortress 2", 7)],
        processes: vec![proc],
        handles: Vec::new(),
    };
    let r = Process::from_window(&mut os, "Team Fortress 2");
    assert!(matches!(r, Err(AttachError::ProcessOpenFailed(5))));
    assert_eq!(open_handles(&os), 0);
}

#[test]
fn attach_path_failure_closes_the_opened_handle() {
    let mut proc = plain_process(7, b"C:\\hl2.exe\0");
    proc.path_error = Some(31);
    let mut os = OsState {
        windows: vec![window("Team Fortress 2", 7)],
        processes: vec![proc],
        handles: Vec::new(),
    };
    let r = Process::from_window(&mut os, "Team Fortress 2");
    assert!(matches!(r, Err(AttachError::PathQueryFailed(31))));
    assert_eq!(open_handles(&os), 0);
    assert_eq!(os.handles.len(), 1);
    assert!(!os.handles[0].open);
}

#[test]
fn attach_invalid_path_encoding_closes_the_opened_handle() {
    let proc = plain_process(7, &[0xC0u8, 0xAF, 0x00]);
    let mut os = OsState {
        windows: vec![window("Team Fortress 2", 7)],
        processes: vec![proc],
        handles: Vec::new(),
    };
    let r = Process::from_window(&mut os, "Team Fortress 2");
    assert!(matches!(r, Err(AttachError::InvalidEncoding)));
    assert_eq!(open_handles(&os), 0);
}

#[test]
fn attach_ignores_path_bytes_after_terminator() {
    let mut bad_tail = b"C:\\hl2.exe\0".to_vec();
    bad_tail.extend_from_slice(&[0xFFu8, 0xC0, 0x80]);
    let mut os = OsState {
        windows: vec![window("Team Fortress 2", 7)],
        processes: vec![plain_process(7, &bad_tail)],
        handles: Vec::new(),
    };
    let p = Process::from_window(&mut os, "Team Fortress 2").unwrap();
    assert_eq!(p.path(), Some("C:\\hl2.exe"));
}

#[test]
fn close_releases_exactly_once() {
    let mut os = OsState {
        windows: vec![window("Team Fortress 2", 7)],
        processes: vec![plain_process(7, b"C:\\hl2.exe\0")],
        handles: Vec::new(),
    };
    let mut p = Process::from_window(&mut os, "Team Fortress 2").unwrap();
    assert_eq!(open_handles(&os), 1);
    p.close(&mut os);
    assert_eq!(open_handles(&os), 0);
    assert!(!os.handles[0].open);
    p.close(&mut os);
    p.close(&mut os);
    assert_eq!(open_handles(&os), 0);
    assert_eq!(os.handles.len(), 1);
}

#[test]
fn handle_slot_survives_unrelated_operations() {
    let module = ModuleRecord { name_raw: b"server.dll\0".to_vec(), base: 0x2000 };
    let mut proc = plain_process(7, b"C:\\hl2.exe\0");
    proc.modules = vec![module];
    let mut os = OsState {
        windows: vec![window("Team Fortress 2", 7)],
        processes: vec![proc],
        handles: vec![HandleSlot { open: true, pid: 99 }],
    };
    let p = Process::from_window(&mut os, "Team Fortress 2").unwrap();
    let _ = p.find_module_info(&mut os, "client.dll");
    assert!(os.handles[0].open);
    assert_eq!(os.handles[0].pid, 99);
    assert!(os.handles[p.handle()].open);
}

#[test]
fn attach_picks_first_window_with_matching_title() {
    let mut os = OsState {
        windows: vec![window("Team Fortress 2", 7), window("Team Fortress 2", 9)],
        processes: vec![
            plain_process(9, b"C:\\other.exe\0"),
            plain_process(7, b"C:\\hl2.exe\0"),
        ],
        handles: Vec::new(),
    };
    let p = Process::from_window(&mut os, "Team Fortress 2").unwrap();
    assert_eq!(p.process_id, 7);
}

#[test]
fn name_is_final_path_component() {
    let mut os = OsState {
        windows: vec![window("A", 1), window("B", 2), window("C", 3)],
        processes: vec![
            plain_process(1, b"C:/games/tf2/hl2.exe\0"),
            plain_process(2, b"hl2.exe\0"),
            plain_process(3, b"C:\\games\\tf2\\\0"),
        ],
        handles: Vec::new(),
    };
    let forward = Process::from_window(&mut os, "A").unwrap();
    assert_eq!(forward.name(), Some("hl2.exe"));
    let bare = Process::from_window(&mut os, "B").unwrap();
    assert_eq!(bare.name(), Some("hl2.exe"));
    assert_eq!(bare.path(), Some("hl2.exe"));
    let trailing = Process::from_window(&mut os, "C").unwrap();
    assert_eq!(trailing.name(), None);
}

#[test]
fn repeated_module_lookups_are_stable() {
    let mut proc = plain_process(7, b"C:\\hl2.exe\0");
    proc.modules = vec![ModuleRecord { name_raw: b"client.dll\0".to_vec(), base: 0x77 }];
    let mut os = OsState {
        windows: vec![window("Team Fortress 2", 7)],
        processes: vec![proc],
        handles: Vec::new(),
    };
    let p = Process::from_window(&mut os, "Team Fortress 2").unwrap();
    assert_eq!(p.find_module_info(&mut os, "client.dll"), Some(0x77));
    assert_eq!(p.find_module_info(&mut os, "client.dll"), Some(0x77));
    assert_eq!(p.find_module_info(&mut os, "missing.dll"), None);
    assert_eq!(open_handles(&os), 1);
}
