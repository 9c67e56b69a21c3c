use herocrab::hooks::{is_any_api_hooked, is_any_module_hooked, ModuleReading};
use herocrab::names::ModuleExports;
use std::cell::RefCell;

const BASE: usize = 0x7000_0000;
const SIZE: u32 = 0x20_0000;

fn mapped(addresses: Vec<usize>) -> ModuleReading {
    ModuleReading { handle: BASE, information: 1, last_error: 0, base: BASE, size: SIZE, addresses }
}

fn exports(names: &[&str]) -> Vec<String> {
    names.iter().map(|name| name.to_string()).collect()
}

fn module_of(wide: &Vec<u16>) -> String {
    assert_eq!(wide.last(), Some(&0));
    String::from_utf16(&wide[..wide.len() - 1]).unwrap()
}

#[test]
fn reading_with_every_export_inside_is_not_hooked() {
    assert_eq!(mapped(vec![BASE, BASE + 0x1000, BASE + SIZE as usize - 1]).hooked(), Ok(false));
    assert_eq!(mapped(vec![]).hooked(), Ok(false));
}

#[test]
fn reading_with_an_export_outside_is_hooked() {
    assert_eq!(mapped(vec![BASE + 0x1000, BASE + SIZE as usize]).hooked(), Ok(true));
    assert_eq!(mapped(vec![BASE - 1]).hooked(), Ok(true));
    assert_eq!(mapped(vec![0x10_0000]).hooked(), Ok(true));
    assert_eq!(mapped(vec![usize::MAX]).hooked(), Ok(true));
}

#[test]
fn export_that_does_not_resolve_is_passed_over() {
    assert_eq!(mapped(vec![0, BASE + 8, 0]).hooked(), Ok(false));
    assert_eq!(mapped(vec![0, 0]).hooked(), Ok(false));
    assert_eq!(mapped(vec![0, 1]).hooked(), Ok(true));
}

#[test]
fn range_at_the_top_of_the_address_space_is_held_right() {
    let top = ModuleReading {
        handle: 1,
        information: 1,
        last_error: 0,
        base: usize::MAX - 0x0fff,
        size: 0x2000,
        addresses: vec![usize::MAX, usize::MAX - 0x0fff],
    };
    assert_eq!(top.hooked(), Ok(false));
}

#[test]
fn module_that_cannot_be_loaded_fails_the_probe() {
    let reading = ModuleReading {
        handle: 0,
        information: 0,
        last_error: 126,
        base: 0,
        size: 0,
        addresses: vec![],
    };
    assert_eq!(reading.hooked(), Err(126));
}

#[test]
fn module_whose_range_cannot_be_read_fails_the_probe() {
    let reading = ModuleReading {
        handle: BASE,
        information: 0,
        last_error: 6,
        base: 0,
        size: 0,
        addresses: vec![0x10],
    };
    assert_eq!(reading.hooked(), Err(6));
}

#[test]
fn module_is_asked_for_by_its_file_name() {
    let asked = RefCell::new(Vec::new());
    let inspect = |wide: &Vec<u16>, names: &Vec<String>| {
        asked.borrow_mut().push((wide.clone(), names.clone()));
        mapped(vec![BASE + 0x40])
    };
    let names = exports(&["NtClose"]);
    assert_eq!(is_any_api_hooked(&"ntdll".to_string(), &names, &inspect), Ok(false));
    let file: Vec<u16> = "ntdll.dll\0".encode_utf16().collect();
    assert_eq!(asked.into_inner(), vec![(file, names)]);
}

#[test]
fn export_redirected_out_of_its_module_is_detected() {
    let inspect = |_: &Vec<u16>, names: &Vec<String>| {
        mapped(names.iter().map(|name| if name == "NtClose" { 0x1000 } else { BASE + 0x40 }).collect())
    };
    assert_eq!(
        is_any_api_hooked(&"ntdll".to_string(), &exports(&["NtOpenFile", "NtClose"]), &inspect),
        Ok(true)
    );
    assert_eq!(
        is_any_api_hooked(&"ntdll".to_string(), &exports(&["NtOpenFile"]), &inspect),
        Ok(false)
    );
}

#[test]
fn no_module_is_not_hooked() {
    let inspect = |_: &Vec<u16>, _: &Vec<String>| -> ModuleReading { panic!("nothing to inspect") };
    assert_eq!(is_any_module_hooked(&ModuleExports::new(), &inspect), Ok(false));
}

#[test]
fn modules_are_examined_in_order_up_to_the_first_that_is_hooked() {
    let asked = RefCell::new(Vec::new());
    let inspect = |wide: &Vec<u16>, _: &Vec<String>| {
        let module = module_of(wide);
        asked.borrow_mut().push(module.clone());
        if module == "kernel32.dll" { mapped(vec![0x1000]) } else { mapped(vec![BASE + 4]) }
    };
    let mut modules = ModuleExports::new();
    modules.insert("ntdll".to_string(), exports(&["NtClose"]));
    modules.insert("kernel32".to_string(), exports(&["CreateFileW"]));
    modules.insert("user32".to_string(), exports(&["EnumWindows"]));
    assert_eq!(is_any_module_hooked(&modules, &inspect), Ok(true));
    assert_eq!(asked.into_inner(), vec!["ntdll.dll".to_string(), "kernel32.dll".to_string()]);
}

#[test]
fn modules_are_examined_in_order_up_to_the_first_failure() {
    let asked = RefCell::new(0);
    let inspect = |wide: &Vec<u16>, _: &Vec<String>| {
        *asked.borrow_mut() += 1;
        if module_of(wide) == "missing.dll" {
            ModuleReading {
                handle: 0,
                information: 0,
                last_error: 126,
                base: 0,
                size: 0,
                addresses: vec![],
            }
        } else {
            mapped(vec![0x1000])
        }
    };
    let mut modules = ModuleExports::new();
    modules.insert("missing".to_string(), exports(&["f"]));
    modules.insert("ntdll".to_string(), exports(&["NtClose"]));
    assert_eq!(is_any_module_hooked(&modules, &inspect), Err(126));
    assert_eq!(asked.into_inner(), 1);
}

#[test]
fn modules_that_are_all_clean_are_all_examined() {
    let asked = RefCell::new(0);
    let inspect = |_: &Vec<u16>, _: &Vec<String>| {
        *asked.borrow_mut() += 1;
        mapped(vec![BASE + 4, 0])
    };
    let mut modules = ModuleExports::new();
    modules.insert("ntdll".to_string(), exports(&["NtClose", "NoSuchExport"]));
    modules.insert("kernel32".to_string(), exports(&[]));
    assert_eq!(is_any_module_hooked(&modules, &inspect), Ok(false));
    assert_eq!(asked.into_inner(), 2);
}
