//! What the answers of the memory primitives mean.
//!
//! The caller reads, writes and allocates in the target; the rules for what
//! came back are here. Nothing is done on a handle that was never opened or
//! was released. On a usable handle a read never fails: what could not be
//! read is zero. A write that stored fewer bytes than it was given fails. An
//! allocation that gave the null address was denied.

use vstd::pervasive::unreached;
use vstd::prelude::*;
use crate::error::MemoryError;
use crate::process::Process;
use crate::value::{Value, ValueKind, decode, encode, le_value, lemma_decode_encode};

verus! {

/// The byte at `index` of a read: the byte that was transferred there, or
/// zero where nothing was.
pub open spec fn byte_read(data: Seq<u8>, transferred: nat, index: int) -> u8 {
    if index < transferred && index < data.len() {
        data[index]
    } else {
        0
    }
}

/// The buffer that a read of `size` bytes hands out, when the primitive
/// reported `transferred` bytes and left them at the front of `data`.
pub open spec fn buffer_read(size: nat, data: Seq<u8>, transferred: nat) -> Seq<u8> {
    Seq::new(size, |index: int| byte_read(data, transferred, index))
}

/// What a read of `size` bytes from `process` hands out: the buffer of the
/// read on a usable handle, and a refusal on any other.
pub open spec fn read_of(process: Process, size: nat, data: Seq<u8>, transferred: nat) -> Result<
    Seq<u8>,
    MemoryError,
> {
    if process.usable() {
        Ok(buffer_read(size, data, transferred))
    } else {
        Err(MemoryError::InvalidHandle)
    }
}

/// A read on a handle that has been closed is refused, whatever is read and
/// whatever the primitive would have transferred.
pub proof fn lemma_read_after_close_is_refused(
    process: Process,
    size: nat,
    data: Seq<u8>,
    transferred: nat,
)
    ensures
        read_of(process.closed(), size, data, transferred) matches Err(error) && error
            == MemoryError::InvalidHandle,
{
}

/// Completes a read of `size` bytes from `process`: the bytes that the
/// primitive transferred, followed by zeros up to `size`.
///
/// `data` is the buffer that the primitive wrote to and `transferred` the
/// number of bytes that it reported. Whatever it reported, the result has
/// `size` bytes. A process whose handle was never opened, or was released,
/// is refused with [`MemoryError::InvalidHandle`], and no buffer is handed
/// out.
pub fn read_memory_buffer(
    process: &Process,
    size: usize,
    data: &[u8],
    transferred: usize,
) -> (read: Result<Vec<u8>, MemoryError>)
    ensures
        read_of(*process, size as nat, data@, transferred as nat) == match read {
            Ok(buffer) => Ok(buffer@),
            Err(error) => Err(error),
        },
        read matches Ok(buffer) ==> buffer@.len() == size,
{
    if let Err(error) = process.raw_handle() {
        return Err(error);
    }
    let mut buffer: Vec<u8> = Vec::new();
    let mut index: usize = 0;
    while index < size
        invariant
            process.usable(),
            index <= size,
            buffer@.len() == index,
            forall|k: int| 0 <= k < index ==> buffer@[k] == byte_read(data@, transferred as nat, k),
        decreases size - index,
    {
        if index < transferred && index < data.len() {
            buffer.push(data[index]);
        } else {
            buffer.push(0);
        }
        index += 1;
    }
    assert(buffer@ =~= buffer_read(size as nat, data@, transferred as nat));
    Ok(buffer)
}

/// A read that transferred every byte hands out exactly those bytes.
pub proof fn lemma_full_read(data: Seq<u8>)
    ensures
        buffer_read(data.len(), data, data.len()) == data,
{
}

/// A read that transferred nothing hands out zeros.
pub proof fn lemma_failed_read(size: nat, data: Seq<u8>)
    ensures
        forall|index: int| 0 <= index < size ==> buffer_read(size, data, 0)[index] == 0,
{
}

/// Judges a write of `requested` bytes to `process` of which the primitive
/// reported `written`: it fails with [`MemoryError::Write`] where fewer
/// bytes were written than requested.
///
/// A process whose handle was never opened, or was released, is refused
/// with [`MemoryError::InvalidHandle`], whatever was reported.
pub fn write_memory_buffer(
    process: &Process,
    requested: usize,
    written: usize,
) -> (outcome: Result<(), MemoryError>)
    ensures
        match outcome {
            Ok(_) => process.usable() && written >= requested,
            Err(error) => if process.usable() {
                error == MemoryError::Write && written < requested
            } else {
                error == MemoryError::InvalidHandle
            },
        },
{
    if let Err(error) = process.raw_handle() {
        return Err(error);
    }
    if written < requested {
        Err(MemoryError::Write)
    } else {
        Ok(())
    }
}

/// Judges an allocation in `process` by the address that the primitive
/// gave: the null address stands for a denied request and fails with
/// [`MemoryError::AccessDenied`].
///
/// A process whose handle was never opened, or was released, is refused
/// with [`MemoryError::InvalidHandle`], whatever address was given.
pub fn alloc_memory(process: &Process, address: u64) -> (outcome: Result<u64, MemoryError>)
    ensures
        match outcome {
            Ok(allocated) => process.usable() && allocated == address && address != 0,
            Err(error) => if process.usable() {
                error == MemoryError::AccessDenied && address == 0
            } else {
                error == MemoryError::InvalidHandle
            },
        },
{
    if let Err(error) = process.raw_handle() {
        return Err(error);
    }
    if address == 0 {
        Err(MemoryError::AccessDenied)
    } else {
        Ok(address)
    }
}

/// Completes a read of a value of kind `kind` from `process`: the value that
/// the bytes of the read hold.
///
/// `data` is the buffer that the primitive wrote to and `transferred` the
/// number of bytes that it reported; what was not transferred counts as
/// zero. A process whose handle was never opened, or was released, is
/// refused with [`MemoryError::InvalidHandle`].
pub fn read_memory(
    process: &Process,
    kind: ValueKind,
    data: &[u8],
    transferred: usize,
) -> (read: Result<Value, MemoryError>)
    ensures
        match read {
            Ok(value) => process.usable() && value == kind.value_of(
                le_value(buffer_read(kind.width(), data@, transferred as nat)),
            ),
            Err(error) => error == MemoryError::InvalidHandle && !process.usable(),
        },
{
    let buffer: Vec<u8> = match read_memory_buffer(process, kind.byte_width(), data, transferred) {
        Ok(buffer) => buffer,
        Err(error) => {
            return Err(error);
        },
    };
    match decode(kind, buffer.as_slice()) {
        Some(value) => Ok(value),
        None => unreached(),
    }
}

/// The bytes to write to `process` for the value `value`.
///
/// A process whose handle was never opened, or was released, is refused
/// with [`MemoryError::InvalidHandle`].
pub fn write_memory(process: &Process, value: Value) -> (bytes: Result<Vec<u8>, MemoryError>)
    ensures
        match bytes {
            Ok(bytes) => process.usable() && bytes@ == value.bytes(),
            Err(error) => error == MemoryError::InvalidHandle && !process.usable(),
        },
{
    if let Err(error) = process.raw_handle() {
        return Err(error);
    }
    Ok(encode(value))
}

/// A value that is written is read back as it was written, wherever the
/// read hands out the bytes of the write in full.
pub proof fn lemma_written_value_is_read_back(value: Value)
    ensures
        value.kind().value_of(
            le_value(buffer_read(value.kind().width(), value.bytes(), value.kind().width())),
        ) == value,
{
    lemma_decode_encode(value);
    lemma_full_read(value.bytes());
}

/// What to read next when following a chain of pointers.
#[derive(Clone, Copy, Debug, PartialEq, Eq, Structural)]
pub enum ChainRead {
    /// The next pointer of the chain, 32 bits wide.
    Pointer { address: u64 },
    /// The value at the end of the chain.
    Value { address: u64 },
}

/// The read that follows the pointer `pointer`, the `taken`-th of the chain
/// `offsets`. The chain begins with the pointer at `offsets[0]`; each later
/// pointer, and the value at the end, stands at the pointer before it plus
/// the next offset; the last offset leads to the value.
pub open spec fn chain_read_after(offsets: Seq<u32>, taken: nat, pointer: u32) -> ChainRead {
    if taken < offsets.len() - 1 {
        ChainRead::Pointer { address: (pointer + offsets[taken as int]) as u64 }
    } else {
        ChainRead::Value { address: (pointer + offsets[offsets.len() - 1]) as u64 }
    }
}

/// The first read of the pointer chain `offsets`: the pointer at its first
/// entry.
pub fn pointer_chain_start(offsets: &Vec<u32>) -> (first: ChainRead)
    requires
        offsets@.len() >= 1,
    ensures
        first == (ChainRead::Pointer { address: offsets@[0] as u64 }),
{
    ChainRead::Pointer { address: offsets[0] as u64 }
}

/// The read that follows in the pointer chain `offsets` once `taken`
/// pointers have been read, the last of them `pointer`.
pub fn pointer_chain_next(offsets: &Vec<u32>, taken: usize, pointer: u32) -> (next: ChainRead)
    requires
        offsets@.len() >= 1,
        taken >= 1,
    ensures
        next == chain_read_after(offsets@, taken as nat, pointer),
{
    let last: usize = offsets.len() - 1;
    if taken < last {
        ChainRead::Pointer { address: pointer as u64 + offsets[taken] as u64 }
    } else {
        ChainRead::Value { address: pointer as u64 + offsets[last] as u64 }
    }
}

} // verus!
