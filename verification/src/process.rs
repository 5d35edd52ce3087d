//! Processes: finding one by name, and the life of its handle.

use vstd::prelude::*;
use crate::error::MemoryError;
use crate::text::{narrow, same_text, wchar_to_string};

verus! {

/// One entry of a snapshot of the running processes.
#[derive(Debug)]
pub struct ProcessEntry {
    pub process_id: u32,
    /// The name of the executable file, as a zero-terminated wide string.
    pub exe_file: Vec<u16>,
}

/// Who a process is.
#[derive(Debug)]
pub struct ProcessIdentity {
    pub process_id: u32,
    pub image_name: String,
    /// The path of the executable file, once it has been asked for.
    pub image_path: Option<String>,
}

/// The entry at `index` is the first of `entries` whose executable file
/// has the name `name`.
pub open spec fn is_first_process(entries: Seq<ProcessEntry>, name: Seq<char>, index: int) -> bool {
    &&& 0 <= index < entries.len()
    &&& narrow(entries[index].exe_file@) == name
    &&& forall|j: int| 0 <= j < index ==> narrow((#[trigger] entries[j]).exe_file@) != name
}

/// No entry of `entries` has an executable file with the name `name`.
pub open spec fn no_process(entries: Seq<ProcessEntry>, name: Seq<char>) -> bool {
    forall|j: int| 0 <= j < entries.len() ==> narrow((#[trigger] entries[j]).exe_file@) != name
}

/// Finds the first process whose executable file is named `process_name`.
/// Names are compared exactly, letter case included.
///
/// Where no process has that name the search fails with
/// [`MemoryError::ProcessNotFound`].
pub fn find_process_by_name(entries: &Vec<ProcessEntry>, process_name: &str) -> (found: Result<
    ProcessIdentity,
    MemoryError,
>)
    ensures
        match found {
            Ok(identity) => {
                &&& exists|index: int|
                    is_first_process(entries@, process_name@, index) && identity.process_id
                        == entries@[index].process_id
                &&& identity.image_name@ == process_name@
                &&& identity.image_path is None
            },
            Err(error) => error == MemoryError::ProcessNotFound && no_process(
                entries@,
                process_name@,
            ),
        },
{
    let mut index: usize = 0;
    while index < entries.len()
        invariant
            index <= entries@.len(),
            forall|j: int|
                0 <= j < index ==> narrow((#[trigger] entries@[j]).exe_file@) != process_name@,
        decreases entries@.len() - index,
    {
        let name: String = wchar_to_string(entries[index].exe_file.as_slice());
        if same_text(name.as_str(), process_name) {
            assert(is_first_process(entries@, process_name@, index as int));
            return Ok(
                ProcessIdentity {
                    process_id: entries[index].process_id,
                    image_name: name,
                    image_path: None,
                },
            );
        }
        index += 1;
    }
    Err(MemoryError::ProcessNotFound)
}

/// The path of the executable file of `process`, from the answer to the
/// query for it: the number of units written and the buffer they were
/// written to. Nothing was found out where nothing was written.
///
/// A process whose handle was never opened, or was released, is refused
/// with [`MemoryError::InvalidHandle`], whatever the answer holds.
pub fn get_process_path(process: &Process, written: u32, buffer: &[u16]) -> (path: Result<
    Option<String>,
    MemoryError,
>)
    ensures
        match path {
            Ok(Some(path)) => process.usable() && written != 0 && path@ == narrow(buffer@),
            Ok(None) => process.usable() && written == 0,
            Err(error) => error == MemoryError::InvalidHandle && !process.usable(),
        },
{
    if let Err(error) = process.raw_handle() {
        return Err(error);
    }
    if written == 0 {
        Ok(None)
    } else {
        Ok(Some(wchar_to_string(buffer)))
    }
}

/// The value of a handle that refers to nothing.
pub const NULL_HANDLE: isize = 0;

/// An opened process: who it is, and the handle the operating system gave
/// for it. The handle is released once.
#[derive(Debug)]
pub struct Process {
    pub id: u32,
    pub name: String,
    pub handle: isize,
    /// The handle has been released.
    pub released: bool,
}

impl Process {
    /// The handle may be used: it was opened and has not been released.
    pub open spec fn usable(&self) -> bool {
        !self.released && self.handle != NULL_HANDLE
    }

    /// The process once its handle has been released.
    pub open spec fn closed(self) -> Process {
        Process { released: true, ..self }
    }

    /// Takes the handle that opening the process `identity` gave.
    ///
    /// The null handle, which stands for a denied request, is refused with
    /// [`MemoryError::AccessDenied`].
    pub fn attach(identity: ProcessIdentity, handle: isize) -> (opened: Result<
        Process,
        MemoryError,
    >)
        ensures
            match opened {
                Ok(process) => {
                    &&& handle != NULL_HANDLE
                    &&& process.id == identity.process_id
                    &&& process.name@ == identity.image_name@
                    &&& process.handle == handle
                    &&& !process.released
                },
                Err(error) => error == MemoryError::AccessDenied && handle == NULL_HANDLE,
            },
    {
        if handle == NULL_HANDLE {
            Err(MemoryError::AccessDenied)
        } else {
            Ok(
                Process {
                    id: identity.process_id,
                    name: identity.image_name,
                    handle,
                    released: false,
                },
            )
        }
    }

    /// A process with the same fields.
    pub fn duplicate(&self) -> (copy: Process)
        ensures
            copy == *self,
    {
        Process {
            id: self.id,
            name: self.name.clone(),
            handle: self.handle,
            released: self.released,
        }
    }

    /// The handle to work with.
    ///
    /// A handle that was never opened, or was released, is refused with
    /// [`MemoryError::InvalidHandle`].
    pub fn raw_handle(&self) -> (handle: Result<isize, MemoryError>)
        ensures
            match handle {
                Ok(handle) => self.usable() && handle == self.handle,
                Err(error) => error == MemoryError::InvalidHandle && !self.usable(),
            },
    {
        if self.released || self.handle == NULL_HANDLE {
            Err(MemoryError::InvalidHandle)
        } else {
            Ok(self.handle)
        }
    }
}

/// Releases the handle of `process` and returns it, for the caller to close.
///
/// A handle that was never opened, or was released before, is refused
/// with [`MemoryError::InvalidHandle`], and nothing changes.
pub fn close_handle(process: &mut Process) -> (closed: Result<isize, MemoryError>)
    ensures
        final(process).id == old(process).id,
        final(process).name == old(process).name,
        final(process).handle == old(process).handle,
        match closed {
            Ok(handle) => {
                &&& old(process).usable()
                &&& handle == old(process).handle
                &&& *final(process) == old(process).closed()
            },
            Err(error) => {
                &&& error == MemoryError::InvalidHandle
                &&& !old(process).usable()
                &&& *final(process) == *old(process)
            },
        },
        !final(process).usable(),
{
    if process.released || process.handle == NULL_HANDLE {
        Err(MemoryError::InvalidHandle)
    } else {
        process.released = true;
        Ok(process.handle)
    }
}

/// Whether a process has a handle with another number than `number`.
pub open spec fn other_than(number: isize) -> spec_fn(Process) -> bool {
    |process: Process| process.handle != number
}

/// One of the processes `open` has the handle with the number `number`, and
/// the handle is usable.
pub open spec fn holds(open: Seq<Process>, number: isize) -> bool {
    exists|index: int|
        0 <= index < open.len() && (#[trigger] open[index]).handle == number && open[index].usable()
}

/// The process at `index` is the last of `open` that has the handle with the
/// number `number` and may use it.
pub open spec fn is_held_at(open: Seq<Process>, number: isize, index: int) -> bool {
    &&& 0 <= index < open.len()
    &&& open[index].handle == number
    &&& open[index].usable()
    &&& forall|later: int|
        index < later < open.len() ==> !((#[trigger] open[later]).handle == number
            && open[later].usable())
}

/// Once the processes with the handle `number` are taken out, no process
/// holds that handle, and every other handle is held as before. So a handle
/// that was closed cannot be used again.
pub proof fn lemma_closed_handle_is_gone(open: Seq<Process>, number: isize, other: isize)
    ensures
        holds(open.filter(other_than(number)), other) == (holds(open, other) && other != number),
{
    let kept = open.filter(other_than(number));
    if holds(open, other) && other != number {
        // the process that holds `other` stays
        let index = choose|index: int|
            0 <= index < open.len() && (#[trigger] open[index]).handle == other
                && open[index].usable();
        open.lemma_filter_contains(other_than(number), index);
        let k = choose|k: int| 0 <= k < kept.len() && kept[k] == open[index];
        assert(kept[k].handle == other);
    }
    if holds(kept, other) {
        // a process that stayed has another number, and was there before
        let k = choose|k: int|
            0 <= k < kept.len() && (#[trigger] kept[k]).handle == other && kept[k].usable();
        open.lemma_filter_pred(other_than(number), k);
        assert(kept.contains(kept[k]));
        open.lemma_filter_contains_rev(other_than(number), kept[k]);
        let index = choose|index: int| 0 <= index < open.len() && open[index] == kept[k];
        assert(open[index].handle == other);
    }
}

/// The processes that are open, for callers that hold a handle only by its
/// number.
#[derive(Debug)]
pub struct HandleTable {
    pub open: Vec<Process>,
}

impl HandleTable {
    /// A table without processes.
    pub fn new() -> (table: HandleTable)
        ensures
            table.open@.len() == 0,
    {
        HandleTable { open: Vec::new() }
    }

    /// Takes an opened process.
    ///
    /// A process whose handle is not usable is refused with
    /// [`MemoryError::InvalidHandle`], and the table stays as it is.
    pub fn keep(&mut self, process: Process) -> (kept: Result<isize, MemoryError>)
        ensures
            match kept {
                Ok(number) => {
                    &&& process.usable()
                    &&& number == process.handle
                    &&& final(self).open@ == old(self).open@.push(process)
                },
                Err(error) => {
                    &&& error == MemoryError::InvalidHandle
                    &&& !process.usable()
                    &&& final(self).open@ == old(self).open@
                },
            },
    {
        match process.raw_handle() {
            Ok(number) => {
                self.open.push(process);
                Ok(number)
            },
            Err(error) => Err(error),
        }
    }

    /// The process that holds the handle with the number `number`: the one
    /// that was taken last, where the number was given out more than once.
    ///
    /// A number that stands for no usable handle, because none was opened
    /// under it or because it was closed, is refused with
    /// [`MemoryError::InvalidHandle`].
    pub fn process(&self, number: isize) -> (found: Result<&Process, MemoryError>)
        ensures
            match found {
                Ok(process) => exists|index: int|
                    is_held_at(self.open@, number, index) && *process == self.open@[index],
                Err(error) => error == MemoryError::InvalidHandle && !holds(self.open@, number),
            },
    {
        let mut index: usize = self.open.len();
        while index > 0
            invariant
                index <= self.open@.len(),
                forall|later: int|
                    index <= later < self.open@.len() ==> !((#[trigger] self.open@[later]).handle
                        == number && self.open@[later].usable()),
            decreases index,
        {
            index -= 1;
            let process = &self.open[index];
            if process.handle == number && !process.released && process.handle != NULL_HANDLE {
                assert(is_held_at(self.open@, number, index as int));
                return Ok(process);
            }
        }
        Err(MemoryError::InvalidHandle)
    }

    /// Releases the handle with the number `number` and returns it, for the
    /// caller to close. The processes that had it leave the table.
    ///
    /// A number that stands for no usable handle is refused with
    /// [`MemoryError::InvalidHandle`].
    pub fn close(&mut self, number: isize) -> (closed: Result<isize, MemoryError>)
        ensures
            match closed {
                Ok(handle) => handle == number && holds(old(self).open@, number),
                Err(error) => error == MemoryError::InvalidHandle && !holds(
                    old(self).open@,
                    number,
                ),
            },
            final(self).open@ == old(self).open@.filter(other_than(number)),
    {
        let ghost before = self.open@;
        let mut kept: Vec<Process> = Vec::new();
        let mut held: bool = false;
        let mut index: usize = 0;
        assert(before.take(0).filter(other_than(number)) =~= Seq::<Process>::empty()) by {
            reveal(Seq::filter);
        }
        while index < self.open.len()
            invariant
                self.open@ == before,
                index <= before.len(),
                held == holds(before.take(index as int), number),
                kept@ == before.take(index as int).filter(other_than(number)),
            decreases before.len() - index,
        {
            let process = &self.open[index];
            proof {
                let seen = before.take(index as int);
                let more = before.take(index + 1);
                assert(more.drop_last() =~= seen);
                assert(more.last() == before[index as int]);
                reveal(Seq::filter);
                lemma_holds_one_more(seen, before[index as int], number);
                assert(more =~= seen.push(before[index as int]));
            }
            if process.handle == number {
                if !process.released && number != NULL_HANDLE {
                    held = true;
                }
            } else {
                kept.push(process.duplicate());
            }
            index += 1;
        }
        assert(before.take(before.len() as int) =~= before);
        self.open = kept;
        if held {
            Ok(number)
        } else {
            Err(MemoryError::InvalidHandle)
        }
    }
}

/// A list with one more process holds a handle if it held it before, or if
/// that process has it and may use it.
proof fn lemma_holds_one_more(open: Seq<Process>, process: Process, number: isize)
    ensures
        holds(open.push(process), number) == (holds(open, number) || (process.handle == number
            && process.usable())),
{
    let longer = open.push(process);
    if holds(open, number) {
        let index = choose|index: int|
            0 <= index < open.len() && (#[trigger] open[index]).handle == number
                && open[index].usable();
        assert(longer[index].handle == number);
    }
    if process.handle == number && process.usable() {
        assert(longer[open.len() as int].handle == number);
    }
    if holds(longer, number) {
        let index = choose|index: int|
            0 <= index < longer.len() && (#[trigger] longer[index]).handle == number
                && longer[index].usable();
        if index < open.len() {
            assert(open[index].handle == number);
        }
    }
}

} // verus!
