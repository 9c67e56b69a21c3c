//! Probes that read one thing about the process, the thread or the system
//! and hold it against what it is where nothing is being debugged.
//!
//! The host reads; the functions here tell what the reading means. Where a
//! probe reads a second time only after the first reading, the second read
//! is handed over as a function, which is called only then.

use vstd::prelude::*;

verus! {

/// The status of a call that succeeded.
pub const STATUS_SUCCESS: i32 = 0;

/// The status of a query for the debug object of a process that has none.
pub const STATUS_PORT_NOT_SET: i32 = -1073740973;

/// The bits of the global flag that are set for a process that was started
/// under a debugger: the checks of the heap's tails, of freed blocks and of
/// the parameters of heap calls.
pub const DEBUGGED_HEAP_FLAGS: u32 = 0x70;

/// The hardware breakpoint addresses of a thread.
#[derive(Clone, Copy, PartialEq, Eq, Structural, Debug)]
pub struct DebugRegisters {
    pub dr0: u64,
    pub dr1: u64,
    pub dr2: u64,
    pub dr3: u64,
}

/// What the query whether a thread is hidden from debuggers gave.
#[derive(Clone, Copy, PartialEq, Eq, Structural, Debug)]
pub struct ThreadHideQuery {
    /// The status of the query.
    pub status: i32,
    /// Whether the thread is hidden.
    pub hidden: bool,
    /// The error code of the operating system after the query.
    pub last_error: u32,
}

/// What the query for the type of the debug object gave.
#[derive(Clone, Copy, PartialEq, Eq, Structural, Debug)]
pub struct ObjectTypeQuery {
    /// The status of the query.
    pub status: i32,
    /// The number of objects of the type that the system counts.
    pub total_number_of_objects: u32,
}

/// Whether the process is marked as being debugged in its environment
/// block: whether the mark is 1.
pub fn is_debugged_peb(being_debugged: u8) -> (outcome: Result<bool, u32>)
    ensures
        outcome == Ok::<bool, u32>(being_debugged == 1),
{
    Ok(being_debugged == 1)
}

/// Whether a debugger is attached to the process, as the operating system
/// tells. `checked` is what the check returned and `present` what it found;
/// the probe fails with `last_error` if the check returned nothing above
/// zero.
pub fn is_remotely_debugged(checked: i32, present: i32, last_error: u32) -> (outcome: Result<
    bool,
    u32,
>)
    ensures
        outcome == if checked > 0 {
            Ok::<bool, u32>(present != 0)
        } else {
            Err::<bool, u32>(last_error)
        },
{
    if checked > 0 {
        Ok(present != 0)
    } else {
        Err(last_error)
    }
}

/// Whether closing a handle that is none raised an exception, which it
/// does under a debugger only. `raised` is what the native helper that
/// closes the handle returned: zero if nothing was raised.
pub fn is_debugged_invalid_handle(raised: i32) -> (outcome: Result<bool, u32>)
    ensures
        outcome == Ok::<bool, u32>(raised != 0),
{
    Ok(raised != 0)
}

/// Whether a hardware breakpoint is set in the thread: whether one of the
/// four breakpoint addresses is not zero. `read` is what the read of the
/// thread's context returned; the probe fails with `last_error` unless that
/// is 1.
pub fn is_debugged_hw_bp(read: i32, registers: DebugRegisters, last_error: u32) -> (outcome: Result<
    bool,
    u32,
>)
    ensures
        outcome == if read == 1 {
            Ok::<bool, u32>(
                registers.dr0 != 0 || registers.dr1 != 0 || registers.dr2 != 0 || registers.dr3
                    != 0,
            )
        } else {
            Err::<bool, u32>(last_error)
        },
{
    if read == 1 {
        Ok(registers.dr0 != 0 || registers.dr1 != 0 || registers.dr2 != 0 || registers.dr3 != 0)
    } else {
        Err(last_error)
    }
}

/// Whether the global flag of the process has one of the bits that a
/// debugger sets at start ([`DEBUGGED_HEAP_FLAGS`]).
pub fn is_debugged_global_flag(nt_global_flag: u32) -> (outcome: Result<bool, u32>)
    ensures
        outcome == Ok::<bool, u32>(nt_global_flag & DEBUGGED_HEAP_FLAGS != 0),
{
    Ok(nt_global_flag & DEBUGGED_HEAP_FLAGS != 0)
}

/// Whether the debug flags of the process tell of a debugger: the query
/// succeeded and the "no debugger" flag is zero.
pub fn is_debugged_debug_flags(status: i32, no_debug: u32) -> (outcome: Result<bool, u32>)
    ensures
        outcome == Ok::<bool, u32>(status == STATUS_SUCCESS && no_debug == 0),
{
    Ok(status == STATUS_SUCCESS && no_debug == 0)
}

/// Whether the process has a debug object. Where it has none, the query
/// ends with [`STATUS_PORT_NOT_SET`] and a null handle; anything else tells
/// of a debugger. `debug_object` is the handle that the query gave.
pub fn is_debugged_debug_port(status: i32, debug_object: usize) -> (outcome: Result<bool, u32>)
    ensures
        outcome == Ok::<bool, u32>(status != STATUS_PORT_NOT_SET || debug_object != 0),
{
    Ok(status != STATUS_PORT_NOT_SET || debug_object != 0)
}

/// Whether a kernel debugger is there: the query succeeded and its answer
/// is 1.
pub fn is_kernel_debugger_present(status: i32, kernel_debugger: i16) -> (outcome: Result<bool, u32>)
    ensures
        outcome == Ok::<bool, u32>(status == STATUS_SUCCESS && kernel_debugger == 1),
{
    Ok(status == STATUS_SUCCESS && kernel_debugger == 1)
}

/// What the query after a successful request to hide the thread tells: a
/// thread that is not hidden after all was kept visible by someone. The
/// probe fails if the query did.
pub open spec fn thread_hide_verdict(query: ThreadHideQuery) -> Result<bool, u32> {
    if query.status == STATUS_SUCCESS {
        Ok(!query.hidden)
    } else {
        Err(query.last_error)
    }
}

/// Whether hiding the thread from debuggers fails. `hide_status` is the
/// status of the request to hide the thread. If the request was refused,
/// the probe detects; `query` is not called. If it succeeded, `query` asks
/// whether the thread is hidden now, and the probe detects if it is not.
pub fn does_thread_hide_fail<F: FnOnce() -> ThreadHideQuery>(hide_status: i32, query: F) -> (outcome:
    Result<bool, u32>)
    requires
        query.requires(()),
    ensures
        hide_status != STATUS_SUCCESS ==> outcome == Ok::<bool, u32>(true),
        hide_status == STATUS_SUCCESS ==> exists|answer: ThreadHideQuery|
            query.ensures((), answer) && outcome == thread_hide_verdict(answer),
{
    if hide_status == STATUS_SUCCESS {
        let answer = query();
        let outcome = if answer.status == STATUS_SUCCESS {
            Ok(!answer.hidden)
        } else {
            Err(answer.last_error)
        };
        assert(query.ensures((), answer) && outcome == thread_hide_verdict(answer));
        outcome
    } else {
        Ok(true)
    }
}

/// What the query for the type of a debug object that was just created
/// tells: a type of which the system counts no object has been tampered
/// with.
pub open spec fn object_count_verdict(query: ObjectTypeQuery) -> Result<bool, u32> {
    Ok(query.status == STATUS_SUCCESS && query.total_number_of_objects == 0)
}

/// Whether the count of debug objects is being hidden. `create_status` is
/// the status of the creation of a debug object. If none was created, the
/// probe detects nothing; `query` is not called. If one was, `query` closes
/// it and asks for its type, and the probe detects if the system counts no
/// object of that type.
pub fn is_objinfo_numobj_hooked<F: FnOnce() -> ObjectTypeQuery>(create_status: i32, query: F) -> (outcome:
    Result<bool, u32>)
    requires
        query.requires(()),
    ensures
        create_status != STATUS_SUCCESS ==> outcome == Ok::<bool, u32>(false),
        create_status == STATUS_SUCCESS ==> exists|answer: ObjectTypeQuery|
            query.ensures((), answer) && outcome == object_count_verdict(answer),
{
    if create_status == STATUS_SUCCESS {
        let answer = query();
        let outcome = Ok(answer.status == STATUS_SUCCESS && answer.total_number_of_objects == 0);
        assert(query.ensures((), answer) && outcome == object_count_verdict(answer));
        outcome
    } else {
        Ok(false)
    }
}

} // verus!
