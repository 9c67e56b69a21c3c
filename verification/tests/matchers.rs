use herocrab::matchers::{
    is_any_unwanted_mutant_existent, is_any_unwanted_process_running,
    is_any_unwanted_symlink_existent, is_any_unwanted_top_window_existent, is_mutant_existent,
    is_symlink_existent, verdict_of, Object, OpenAttempt, ERROR_FILE_NOT_FOUND,
};
use herocrab::names::NameSet;
use herocrab::snapshot::{ProcessListing, WindowListing, WindowText, INVALID_HANDLE_VALUE};
use std::cell::RefCell;

const ERROR_ACCESS_DENIED: u32 = 5;

fn set_of(names: &[&str]) -> NameSet {
    let mut set = NameSet::new();
    for name in names {
        set.insert(name.to_string());
    }
    set
}

fn processes(names: &[&str]) -> ProcessListing {
    ProcessListing {
        snapshot: 0x40,
        first: 1,
        last_error: 0,
        exe_files: names
            .iter()
            .map(|name| {
                let mut units: Vec<u16> = name.encode_utf16().collect();
                units.resize(260, 0);
                units
            })
            .collect(),
    }
}

fn windows(titles: &[&str]) -> WindowListing {
    WindowListing {
        enumerated: 1,
        last_error: 0,
        windows: titles
            .iter()
            .map(|title| {
                let mut buffer: Vec<u16> = title.encode_utf16().collect();
                let copied = buffer.len() as i32;
                buffer.push(0);
                WindowText { copied, buffer }
            })
            .collect(),
    }
}

fn asked_for(wide: &Vec<u16>) -> String {
    assert_eq!(wide.last(), Some(&0));
    String::from_utf16(&wide[..wide.len() - 1]).unwrap()
}

const ABSENT: OpenAttempt = OpenAttempt { handle: 0, last_error: ERROR_FILE_NOT_FOUND };
const DENIED: OpenAttempt = OpenAttempt { handle: 0, last_error: ERROR_ACCESS_DENIED };
const OPENED: OpenAttempt = OpenAttempt { handle: 0x1c, last_error: 0 };
const NO_FILE: OpenAttempt =
    OpenAttempt { handle: INVALID_HANDLE_VALUE, last_error: ERROR_FILE_NOT_FOUND };

#[test]
fn empty_set_detects_nothing_among_processes() {
    assert_eq!(
        is_any_unwanted_process_running(&NameSet::new(), &processes(&["System"])),
        Ok(false)
    );
    assert_eq!(is_any_unwanted_process_running(&NameSet::new(), &processes(&[])), Ok(false));
    let failed = ProcessListing {
        snapshot: INVALID_HANDLE_VALUE,
        first: 0,
        last_error: 8,
        exe_files: vec![],
    };
    assert_eq!(is_any_unwanted_process_running(&NameSet::new(), &failed), Ok(false));
}

#[test]
fn empty_set_detects_nothing_among_windows() {
    assert_eq!(
        is_any_unwanted_top_window_existent(&NameSet::new(), &windows(&["x64dbg"])),
        Ok(false)
    );
    let failed = WindowListing { enumerated: 0, last_error: 8, windows: vec![] };
    assert_eq!(is_any_unwanted_top_window_existent(&NameSet::new(), &failed), Ok(false));
}

#[test]
fn empty_set_detects_nothing_among_mutants() {
    let open = |_: &Vec<u16>| -> OpenAttempt { panic!("nothing to ask for") };
    assert_eq!(is_any_unwanted_mutant_existent(&NameSet::new(), &open), Ok(false));
}

#[test]
fn empty_set_detects_nothing_among_symlinks() {
    let open = |_: &Vec<u16>| -> OpenAttempt { panic!("nothing to ask for") };
    assert_eq!(is_any_unwanted_symlink_existent(&NameSet::new(), &open), Ok(false));
}

#[test]
fn process_names_are_held_against_each_other_whole() {
    let running = processes(&["System", "procmon64.exe", "explorer.exe"]);
    assert_eq!(
        is_any_unwanted_process_running(&set_of(&["wireshark.exe", "procmon64.exe"]), &running),
        Ok(true)
    );
    assert_eq!(is_any_unwanted_process_running(&set_of(&["procmon"]), &running), Ok(false));
    assert_eq!(
        is_any_unwanted_process_running(&set_of(&["PROCMON64.EXE"]), &running),
        Ok(false)
    );
    assert_eq!(is_any_unwanted_process_running(&set_of(&[""]), &running), Ok(false));
}

#[test]
fn processes_that_cannot_be_listed_fail_the_probe() {
    let failed =
        ProcessListing { snapshot: INVALID_HANDLE_VALUE, first: 0, last_error: 8, exe_files: vec![] };
    assert_eq!(is_any_unwanted_process_running(&set_of(&["System"]), &failed), Err(8));
    let no_first = ProcessListing { snapshot: 0x40, first: 0, last_error: 18, exe_files: vec![] };
    assert_eq!(is_any_unwanted_process_running(&set_of(&["System"]), &no_first), Err(18));
}

#[test]
fn window_title_is_the_haystack() {
    let store = windows(&["Microsoft Store - Home"]);
    assert_eq!(is_any_unwanted_top_window_existent(&set_of(&["Microsoft Store"]), &store), Ok(true));
    let short = windows(&["Microsoft Store"]);
    assert_eq!(
        is_any_unwanted_top_window_existent(&set_of(&["Microsoft Store - Home"]), &short),
        Ok(false)
    );
}

#[test]
fn window_titles_are_searched_for_every_unwanted_text() {
    let desktop = windows(&["Program Manager", "Process Hacker [DESKTOP\\user]", "Notes"]);
    assert_eq!(
        is_any_unwanted_top_window_existent(&set_of(&["OllyDbg", "Hacker ["]), &desktop),
        Ok(true)
    );
    assert_eq!(
        is_any_unwanted_top_window_existent(&set_of(&["OllyDbg", "hacker"]), &desktop),
        Ok(false)
    );
    assert_eq!(is_any_unwanted_top_window_existent(&set_of(&["Notes"]), &desktop), Ok(true));
    assert_eq!(is_any_unwanted_top_window_existent(&set_of(&["Manager"]), &desktop), Ok(true));
    assert_eq!(is_any_unwanted_top_window_existent(&set_of(&["Notes "]), &desktop), Ok(false));
}

#[test]
fn empty_text_stands_in_every_title() {
    assert_eq!(is_any_unwanted_top_window_existent(&set_of(&[""]), &windows(&["Notes"])), Ok(true));
    assert_eq!(is_any_unwanted_top_window_existent(&set_of(&[""]), &windows(&[])), Ok(false));
}

#[test]
fn window_titles_match_by_characters() {
    let desktop = windows(&["Диспетчер задач", "\u{1F980} herocrab"]);
    assert_eq!(is_any_unwanted_top_window_existent(&set_of(&["задач"]), &desktop), Ok(true));
    assert_eq!(is_any_unwanted_top_window_existent(&set_of(&["\u{1F980} h"]), &desktop), Ok(true));
    assert_eq!(is_any_unwanted_top_window_existent(&set_of(&["задачи"]), &desktop), Ok(false));
}

#[test]
fn windows_that_cannot_be_listed_fail_the_probe() {
    let failed = WindowListing { enumerated: 0, last_error: 1400, windows: vec![] };
    assert_eq!(is_any_unwanted_top_window_existent(&set_of(&["x"]), &failed), Err(1400));
}

#[test]
fn verdict_on_a_mutant() {
    assert_eq!(verdict_of(Object::Mutant, OPENED), Ok(true));
    assert_eq!(verdict_of(Object::Mutant, ABSENT), Ok(false));
    assert_eq!(verdict_of(Object::Mutant, DENIED), Err(ERROR_ACCESS_DENIED));
    assert_eq!(verdict_of(Object::Mutant, OpenAttempt { handle: 0, last_error: 0 }), Err(0));
    assert_eq!(
        verdict_of(Object::Mutant, OpenAttempt { handle: 0x1c, last_error: ERROR_FILE_NOT_FOUND }),
        Ok(true)
    );
}

#[test]
fn verdict_on_a_symlink() {
    assert_eq!(verdict_of(Object::Symlink, OPENED), Ok(true));
    assert_eq!(verdict_of(Object::Symlink, NO_FILE), Ok(false));
    assert_eq!(
        verdict_of(
            Object::Symlink,
            OpenAttempt { handle: INVALID_HANDLE_VALUE, last_error: ERROR_ACCESS_DENIED }
        ),
        Ok(false)
    );
    assert_eq!(verdict_of(Object::Symlink, OpenAttempt { handle: 0, last_error: 0 }), Ok(true));
}

#[test]
fn mutant_is_asked_for_by_its_wide_name() {
    let asked = RefCell::new(Vec::new());
    let open = |wide: &Vec<u16>| {
        asked.borrow_mut().push(wide.clone());
        ABSENT
    };
    assert_eq!(is_mutant_existent(&"Sandboxie_SingleInstanceMutex_Control".to_string(), &open), Ok(false));
    let expected: Vec<u16> =
        "Sandboxie_SingleInstanceMutex_Control\0".encode_utf16().collect();
    assert_eq!(asked.into_inner(), vec![expected]);
}

#[test]
fn mutant_that_cannot_be_opened_for_another_reason_fails_the_probe() {
    let open = |_: &Vec<u16>| DENIED;
    assert_eq!(is_mutant_existent(&"Guarded".to_string(), &open), Err(ERROR_ACCESS_DENIED));
}

#[test]
fn mutants_are_tried_in_order_up_to_the_first_that_is_there() {
    let asked = RefCell::new(Vec::new());
    let open = |wide: &Vec<u16>| {
        let name = asked_for(wide);
        asked.borrow_mut().push(name.clone());
        if name == "second" { OPENED } else { ABSENT }
    };
    let names = set_of(&["first", "second", "third"]);
    assert_eq!(is_any_unwanted_mutant_existent(&names, &open), Ok(true));
    assert_eq!(asked.into_inner(), vec!["first".to_string(), "second".to_string()]);
}

#[test]
fn mutants_are_tried_in_order_up_to_the_first_failure() {
    let asked = RefCell::new(Vec::new());
    let open = |wide: &Vec<u16>| {
        let name = asked_for(wide);
        asked.borrow_mut().push(name.clone());
        match name.as_str() {
            "guarded" => DENIED,
            "there" => OPENED,
            _ => ABSENT,
        }
    };
    let names = set_of(&["absent", "guarded", "there"]);
    assert_eq!(is_any_unwanted_mutant_existent(&names, &open), Err(ERROR_ACCESS_DENIED));
    assert_eq!(asked.into_inner(), vec!["absent".to_string(), "guarded".to_string()]);
}

#[test]
fn mutants_that_are_all_absent_are_all_tried() {
    let asked = RefCell::new(0);
    let open = |_: &Vec<u16>| {
        *asked.borrow_mut() += 1;
        ABSENT
    };
    assert_eq!(is_any_unwanted_mutant_existent(&set_of(&["a", "b", "c"]), &open), Ok(false));
    assert_eq!(asked.into_inner(), 3);
}

#[test]
fn symlink_that_cannot_be_opened_counts_as_absent() {
    let open = |_: &Vec<u16>| OpenAttempt {
        handle: INVALID_HANDLE_VALUE,
        last_error: ERROR_ACCESS_DENIED,
    };
    assert_eq!(is_symlink_existent(&"\\\\.\\VBoxGuest".to_string(), &open), Ok(false));
}

#[test]
fn symlinks_are_tried_in_order_up_to_the_first_that_opens() {
    let asked = RefCell::new(Vec::new());
    let open = |wide: &Vec<u16>| {
        let name = asked_for(wide);
        asked.borrow_mut().push(name.clone());
        if name == "\\\\.\\VBoxGuest" { OPENED } else { NO_FILE }
    };
    let names = set_of(&["\\\\.\\SysmonDrv", "\\\\.\\VBoxGuest", "\\\\.\\HGFS"]);
    assert_eq!(is_any_unwanted_symlink_existent(&names, &open), Ok(true));
    assert_eq!(
        asked.into_inner(),
        vec!["\\\\.\\SysmonDrv".to_string(), "\\\\.\\VBoxGuest".to_string()]
    );
    let never = |_: &Vec<u16>| NO_FILE;
    assert_eq!(is_any_unwanted_symlink_existent(&names, &never), Ok(false));
}
