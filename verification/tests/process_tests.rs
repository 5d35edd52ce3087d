use memscan::access::read_memory_buffer;
use memscan::error::MemoryError;
use memscan::process::{
    close_handle, find_process_by_name, get_process_path, HandleTable, Process, ProcessEntry,
    ProcessIdentity,
};

fn wide(text: &str) -> Vec<u16> {
    let mut units: Vec<u16> = text.encode_utf16().collect();
    units.push(0);
    units
}

fn running() -> Vec<ProcessEntry> {
    vec![
        ProcessEntry { process_id: 4, exe_file: wide("System") },
        ProcessEntry { process_id: 812, exe_file: wide("notepad.exe") },
        ProcessEntry { process_id: 1300, exe_file: wide("game.exe") },
        ProcessEntry { process_id: 2044, exe_file: wide("notepad.exe") },
    ]
}

fn identity(process_id: u32, name: &str) -> ProcessIdentity {
    ProcessIdentity { process_id, image_name: name.to_string(), image_path: None }
}

#[test]
fn find_process_returns_the_first_with_the_name() {
    let found = find_process_by_name(&running(), "notepad.exe").unwrap();
    assert_eq!(found.process_id, 812);
    assert_eq!(found.image_name, "notepad.exe");
    assert_eq!(found.image_path, None);
    assert_eq!(find_process_by_name(&running(), "game.exe").unwrap().process_id, 1300);
}

#[test]
fn find_process_fails_for_a_name_that_is_not_running() {
    assert_eq!(
        find_process_by_name(&running(), "absent.exe").unwrap_err(),
        MemoryError::ProcessNotFound
    );
    assert_eq!(
        find_process_by_name(&Vec::new(), "game.exe").unwrap_err(),
        MemoryError::ProcessNotFound
    );
}

#[test]
fn find_process_compares_names_exactly() {
    assert_eq!(
        find_process_by_name(&running(), "Game.exe").unwrap_err(),
        MemoryError::ProcessNotFound
    );
    assert_eq!(
        find_process_by_name(&running(), "game").unwrap_err(),
        MemoryError::ProcessNotFound
    );
    assert_eq!(
        find_process_by_name(&running(), "system").unwrap_err(),
        MemoryError::ProcessNotFound
    );
}

#[test]
fn find_process_reads_names_up_to_the_first_zero_unit() {
    let mut padded = wide("game.exe");
    padded.extend(wide("junk"));
    padded.resize(260, 0);
    let entries = vec![ProcessEntry { process_id: 7, exe_file: padded }];
    assert_eq!(find_process_by_name(&entries, "game.exe").unwrap().process_id, 7);
    assert_eq!(
        find_process_by_name(&entries, "game.exejunk").unwrap_err(),
        MemoryError::ProcessNotFound
    );
}

#[test]
fn attach_takes_an_open_handle() {
    let process = Process::attach(identity(1300, "game.exe"), 0x2C4).unwrap();
    assert_eq!(process.id, 1300);
    assert_eq!(process.name, "game.exe");
    assert_eq!(process.handle, 0x2C4);
    assert!(!process.released);
    assert_eq!(process.raw_handle(), Ok(0x2C4));
}

#[test]
fn attach_refuses_the_null_handle() {
    assert_eq!(
        Process::attach(identity(1300, "game.exe"), 0).unwrap_err(),
        MemoryError::AccessDenied
    );
}

#[test]
fn closed_handle_cannot_be_used_again() {
    let mut process = Process::attach(identity(1300, "game.exe"), 0x2C4).unwrap();
    assert_eq!(close_handle(&mut process), Ok(0x2C4));
    assert!(process.released);
    assert_eq!(process.raw_handle(), Err(MemoryError::InvalidHandle));
}

#[test]
fn handle_is_closed_once() {
    let mut process = Process::attach(identity(1300, "game.exe"), 0x2C4).unwrap();
    assert_eq!(close_handle(&mut process), Ok(0x2C4));
    assert_eq!(close_handle(&mut process), Err(MemoryError::InvalidHandle));
    assert!(process.released);
    assert_eq!(process.handle, 0x2C4);
}

#[test]
fn handle_that_was_never_opened_is_invalid() {
    let mut process =
        Process { id: 1, name: "game.exe".to_string(), handle: 0, released: false };
    assert_eq!(process.raw_handle(), Err(MemoryError::InvalidHandle));
    assert_eq!(close_handle(&mut process), Err(MemoryError::InvalidHandle));
    assert!(!process.released);
}

#[test]
fn negative_handle_values_are_handles() {
    let process = Process::attach(identity(9, "game.exe"), -1).unwrap();
    assert_eq!(process.raw_handle(), Ok(-1));
}

#[test]
fn process_path_of_an_answered_query() {
    let mut buffer = wide("C:\\Games\\game.exe");
    buffer.resize(260, 0);
    assert_eq!(
        get_process_path(&opened(1, 0x2C4), 17, &buffer),
        Ok(Some("C:\\Games\\game.exe".to_string()))
    );
}

#[test]
fn process_path_of_a_failed_query() {
    let buffer = [0u16; 260];
    assert_eq!(get_process_path(&opened(1, 0x2C4), 0, &buffer), Ok(None));
    assert_eq!(get_process_path(&opened(1, 0x2C4), 0, &wide("C:\\x")), Ok(None));
}

#[test]
fn process_path_on_a_released_handle_is_refused() {
    let mut process = opened(1, 0x2C4);
    close_handle(&mut process).unwrap();
    assert_eq!(get_process_path(&process, 17, &wide("C:\\x")), Err(MemoryError::InvalidHandle));
    assert_eq!(get_process_path(&process, 0, &wide("C:\\x")), Err(MemoryError::InvalidHandle));
}

#[test]
fn every_error_has_its_message() {
    assert_eq!(MemoryError::ProcessNotFound.message(), "Process not found");
    assert_eq!(MemoryError::AccessDenied.message(), "Access denied");
    assert_eq!(MemoryError::InvalidHandle.message(), "Invalid handle");
    assert_eq!(MemoryError::Parse.message(), "Malformed signature");
    assert_eq!(MemoryError::Write.message(), "Write failed");
    assert_eq!(MemoryError::Decode.message(), "Invalid text");
}

fn opened(id: u32, handle: isize) -> Process {
    Process::attach(identity(id, "game.exe"), handle).unwrap()
}

#[test]
fn table_holds_the_processes_it_was_given() {
    let mut table = HandleTable::new();
    assert_eq!(table.process(0x2C4).unwrap_err(), MemoryError::InvalidHandle);
    assert_eq!(table.keep(opened(1, 0x2C4)), Ok(0x2C4));
    assert_eq!(table.keep(opened(2, 0x300)), Ok(0x300));
    assert_eq!(table.process(0x2C4).unwrap().id, 1);
    assert_eq!(table.process(0x2C4).unwrap().raw_handle(), Ok(0x2C4));
    assert_eq!(table.process(0x300).unwrap().id, 2);
    assert_eq!(table.process(0x301).unwrap_err(), MemoryError::InvalidHandle);
}

#[test]
fn table_refuses_a_handle_that_is_not_usable() {
    let mut table = HandleTable::new();
    let never = Process { id: 1, name: "game.exe".to_string(), handle: 0, released: false };
    assert_eq!(table.keep(never), Err(MemoryError::InvalidHandle));
    let mut gone = opened(2, 0x2C4);
    close_handle(&mut gone).unwrap();
    assert_eq!(table.keep(gone), Err(MemoryError::InvalidHandle));
    assert!(table.open.is_empty());
    assert_eq!(table.process(0).unwrap_err(), MemoryError::InvalidHandle);
    assert_eq!(table.close(0), Err(MemoryError::InvalidHandle));
    assert_eq!(table.process(0x2C4).unwrap_err(), MemoryError::InvalidHandle);
}

#[test]
fn table_passes_over_processes_that_are_not_usable() {
    let mut released = opened(1, 0x2C4);
    close_handle(&mut released).unwrap();
    let never = Process { id: 2, name: "game.exe".to_string(), handle: 0, released: false };
    let mut table = HandleTable { open: vec![released, never] };
    assert_eq!(table.process(0x2C4).unwrap_err(), MemoryError::InvalidHandle);
    assert_eq!(table.process(0).unwrap_err(), MemoryError::InvalidHandle);
    assert_eq!(table.close(0x2C4), Err(MemoryError::InvalidHandle));
    assert_eq!(table.open.len(), 1);
    assert_eq!(table.close(0), Err(MemoryError::InvalidHandle));
    assert!(table.open.is_empty());
}

#[test]
fn table_closes_a_handle_once() {
    let mut table = HandleTable::new();
    table.keep(opened(1, 0x2C4)).unwrap();
    table.keep(opened(2, 0x300)).unwrap();
    assert_eq!(table.close(0x2C4), Ok(0x2C4));
    assert_eq!(table.process(0x2C4).unwrap_err(), MemoryError::InvalidHandle);
    assert_eq!(table.close(0x2C4), Err(MemoryError::InvalidHandle));
    // the other process is still open
    assert_eq!(table.process(0x300).unwrap().id, 2);
    assert_eq!(table.open.len(), 1);
    assert_eq!(table.close(0x300), Ok(0x300));
    assert_eq!(table.close(0x999), Err(MemoryError::InvalidHandle));
    assert!(table.open.is_empty());
}

#[test]
fn table_keeps_the_order_of_the_processes_that_stay() {
    let mut table = HandleTable::new();
    for (id, handle) in [(1, 0x10), (2, 0x20), (3, 0x10), (4, 0x30)] {
        table.keep(opened(id, handle)).unwrap();
    }
    assert_eq!(table.close(0x10), Ok(0x10));
    let ids: Vec<u32> = table.open.iter().map(|process| process.id).collect();
    assert_eq!(ids, vec![2, 4]);
}

#[test]
fn table_gives_the_process_that_took_a_number_last() {
    let mut table = HandleTable::new();
    table.keep(opened(1, 0x2C4)).unwrap();
    table.keep(opened(7, 0x2C4)).unwrap();
    assert_eq!(table.process(0x2C4).unwrap().id, 7);
    assert_eq!(table.close(0x2C4), Ok(0x2C4));
    assert_eq!(table.process(0x2C4).unwrap_err(), MemoryError::InvalidHandle);
    assert_eq!(table.keep(opened(9, 0x2C4)), Ok(0x2C4));
    assert_eq!(table.process(0x2C4).unwrap().id, 9);
}

#[test]
fn read_through_the_table_after_close_is_refused() {
    let mut table = HandleTable::new();
    table.keep(opened(1, 0x2C4)).unwrap();
    let read = |process: &Process| read_memory_buffer(process, 2, &[5, 6], 2);
    let before = table.process(0x2C4).and_then(read);
    assert_eq!(before, Ok(vec![5, 6]));
    assert_eq!(table.close(0x2C4), Ok(0x2C4));
    let after = table.process(0x2C4).and_then(read);
    assert_eq!(after, Err(MemoryError::InvalidHandle));
}

#[test]
fn duplicate_has_the_same_fields() {
    let process = opened(5, 0x44);
    let copy = process.duplicate();
    assert_eq!(copy.id, 5);
    assert_eq!(copy.name, "game.exe");
    assert_eq!(copy.handle, 0x44);
    assert!(!copy.released);
}
