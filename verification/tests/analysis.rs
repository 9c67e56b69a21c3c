use herocrab::exception::{Event, Fault, Session, Step};
use herocrab::hooks::{is_any_module_hooked, ModuleReading};
use herocrab::introspect::{
    does_thread_hide_fail, is_debugged_debug_flags, is_debugged_debug_port,
    is_debugged_global_flag, is_debugged_hw_bp, is_debugged_invalid_handle, is_debugged_peb,
    is_kernel_debugger_present, is_objinfo_numobj_hooked, is_remotely_debugged, DebugRegisters,
    ObjectTypeQuery, ThreadHideQuery, STATUS_PORT_NOT_SET, STATUS_SUCCESS,
};
use herocrab::matchers::{
    is_any_unwanted_process_running, is_any_unwanted_top_window_existent, is_mutant_existent,
    is_symlink_existent, OpenAttempt, ERROR_FILE_NOT_FOUND,
};
use herocrab::names::{ModuleExports, NameSet};
use herocrab::snapshot::{ProcessListing, WindowListing, WindowText, INVALID_HANDLE_VALUE};

/// A buffer of 260 code units that holds `name` and zeros after it.
fn exe_file(name: &str) -> Vec<u16> {
    let mut buffer: Vec<u16> = name.encode_utf16().collect();
    assert!(buffer.len() < 260);
    buffer.resize(260, 0);
    buffer
}

/// The processes of a machine on which nothing unusual runs.
fn live_processes() -> ProcessListing {
    ProcessListing {
        snapshot: 0x1a4,
        first: 1,
        last_error: 0,
        exe_files: vec![
            exe_file("[System Process]"),
            exe_file("System"),
            exe_file("smss.exe"),
            exe_file("csrss.exe"),
            exe_file("explorer.exe"),
            exe_file("svchost.exe"),
            exe_file("svchost.exe"),
        ],
    }
}

/// A window whose title was read.
fn window(title: &str) -> WindowText {
    let mut buffer: Vec<u16> = title.encode_utf16().collect();
    let copied = buffer.len() as i32;
    buffer.push(0);
    WindowText { copied, buffer }
}

/// The top-level windows of a desktop with the store open.
fn live_windows() -> WindowListing {
    WindowListing {
        enumerated: 1,
        last_error: 0,
        windows: vec![
            window("Program Manager"),
            WindowText { copied: 0, buffer: vec![0] },
            window("Microsoft Store - Home"),
            window("Default IME"),
        ],
    }
}

/// The text that a name handed to the operating system encodes, without the
/// closing zero.
fn text_of(wide: &Vec<u16>) -> String {
    assert_eq!(wide.last(), Some(&0));
    String::from_utf16(&wide[..wide.len() - 1]).unwrap()
}

/// A namespace that holds the mutant of the debug output and no other.
fn open_mutex(wide: &Vec<u16>) -> OpenAttempt {
    if text_of(wide) == "DBWinMutex" {
        OpenAttempt { handle: 0x2c, last_error: 0 }
    } else {
        OpenAttempt { handle: 0, last_error: ERROR_FILE_NOT_FOUND }
    }
}

/// A machine on which the system monitor's driver is loaded.
fn create_file(wide: &Vec<u16>) -> OpenAttempt {
    if text_of(wide) == "\\\\.\\SysmonDrv" {
        OpenAttempt { handle: 0x30, last_error: 0 }
    } else {
        OpenAttempt { handle: INVALID_HANDLE_VALUE, last_error: ERROR_FILE_NOT_FOUND }
    }
}

/// What a probe reports on a machine that answers every step, with a
/// handler that sees the fault.
fn run_undisturbed(fault: Fault) -> Result<bool, u32> {
    let mut session = Session::start(fault);
    for _ in 0..16 {
        let event = match session.pending() {
            Step::Report(outcome) => return outcome,
            Step::RaiseFault => Event::Resumed { swallowed: false },
            _ => Event::Succeeded,
        };
        session = session.advance(event);
    }
    panic!("the session did not end");
}

#[test]
fn test_system_process() {
    let mut p = NameSet::new();
    p.insert("[System Process]".to_string());

    assert_eq!(is_any_unwanted_process_running(&p, &live_processes()), Ok(true))
}

#[test]
fn test_fake_process() {
    let mut p = NameSet::new();
    // should be fake enough
    p.insert("m0q09fqucnqijx.exe".to_string());

    assert_eq!(is_any_unwanted_process_running(&p, &live_processes()), Ok(false))
}

#[test]
fn test_empty_set_processes() {
    let p = NameSet::new();

    assert_eq!(is_any_unwanted_process_running(&p, &live_processes()), Ok(false));
}

#[test]
fn test_ms_store_window() {
    let mut p = NameSet::new();
    p.insert("Microsoft Store".to_string());

    assert_eq!(is_any_unwanted_top_window_existent(&p, &live_windows()), Ok(true));
}

#[test]
fn test_mutant_dbwin() {
    assert_eq!(is_mutant_existent(&"DBWinMutex".to_string(), &open_mutex), Ok(true));
}

#[test]
fn test_mutant_dbwin2() {
    assert_eq!(is_mutant_existent(&"2DBWinMutex".to_string(), &open_mutex), Ok(false));
}

#[test]
fn test_symlink_sysmon() {
    assert_eq!(is_symlink_existent(&"\\\\.\\SysmonDrv".to_string(), &create_file), Ok(true));
}

#[test]
fn test_is_debugged_peb() {
    assert_eq!(is_debugged_peb(0), Ok(false));
}

#[test]
fn test_is_remotely_debugged() {
    assert_eq!(is_remotely_debugged(1, 0, 0), Ok(false));
}

#[test]
fn test_is_debugged_invalid_handle() {
    assert_eq!(is_debugged_invalid_handle(0), Ok(false));
}

#[test]
fn test_is_debugged_hw_bp() {
    let registers = DebugRegisters { dr0: 0, dr1: 0, dr2: 0, dr3: 0 };
    assert_eq!(is_debugged_hw_bp(1, registers, 0), Ok(false));
}

#[test]
fn test_is_debugged_int_2d() {
    assert_eq!(run_undisturbed(Fault::Int2d), Ok(false));
}

#[test]
fn test_is_debugged_int_3() {
    assert_eq!(run_undisturbed(Fault::Int3), Ok(false));
}

#[test]
fn test_is_debugged_global_flag() {
    assert_eq!(is_debugged_global_flag(0), Ok(false));
}

#[test]
fn test_is_debugged_guard_page() {
    assert_eq!(run_undisturbed(Fault::GuardPage), Ok(false));
}

#[test]
fn test_is_any_module_hooked() {
    let mut hash_map = ModuleExports::new();
    hash_map.insert("ntdll".to_string(), vec!["A_SHAFinal".to_string()]);
    let inspect = |wide: &Vec<u16>, exports: &Vec<String>| {
        assert_eq!(text_of(wide), "ntdll.dll");
        assert_eq!(exports, &vec!["A_SHAFinal".to_string()]);
        ModuleReading {
            handle: 0x7ffb_1c2d_0000,
            information: 1,
            last_error: 0,
            base: 0x7ffb_1c2d_0000,
            size: 0x1f_8000,
            addresses: vec![0x7ffb_1c2e_4a10],
        }
    };
    assert_eq!(is_any_module_hooked(&hash_map, &inspect), Ok(false));
}

#[test]
fn test_is_debugged_debug_flags() {
    assert_eq!(is_debugged_debug_flags(STATUS_SUCCESS, 1), Ok(false));
}

#[test]
fn test_is_debugged_debug_port() {
    assert_eq!(is_debugged_debug_port(STATUS_PORT_NOT_SET, 0), Ok(false));
}

#[test]
fn test_is_kernel_debugger_present() {
    assert_eq!(is_kernel_debugger_present(STATUS_SUCCESS, 0), Ok(false));
}

#[test]
fn test_thread_hide_failed() {
    let query = || ThreadHideQuery { status: STATUS_SUCCESS, hidden: true, last_error: 0 };
    assert_eq!(does_thread_hide_fail(STATUS_SUCCESS, query), Ok(false));
}

#[test]
fn test_is_objinfo_numobj_hooked() {
    let query = || ObjectTypeQuery { status: STATUS_SUCCESS, total_number_of_objects: 1 };
    assert_eq!(is_objinfo_numobj_hooked(STATUS_SUCCESS, query), Ok(false));
}
