//! Snapshots of what the operating system shows: the names of the running
//! processes and the titles of the top-level windows.
//!
//! The host enumerates and hands over what it read; the functions here turn
//! that into sets of names. A snapshot is taken anew for every probe.

use crate::names::NameSet;
use crate::wide::{is_utf16, name_from_wide, text_of, without_trailing_nuls};
use vstd::prelude::*;

verus! {

/// The handle that stands for no handle.
pub const INVALID_HANDLE_VALUE: usize = usize::MAX;

/// What the enumeration of the processes gave.
pub struct ProcessListing {
    /// The handle of the snapshot; [`INVALID_HANDLE_VALUE`] if none was
    /// created.
    pub snapshot: usize,
    /// What the read of the first entry returned; zero if it failed.
    pub first: i32,
    /// The error code of the operating system after a failure.
    pub last_error: u32,
    /// The buffer with the executable's name of each entry, in order.
    pub exe_files: Vec<Vec<u16>>,
}

/// What was read of one top-level window.
pub struct WindowText {
    /// The number of code units copied; zero if the title could not be
    /// read or is empty.
    pub copied: i32,
    /// The buffer that the title was copied to.
    pub buffer: Vec<u16>,
}

/// What the enumeration of the top-level windows gave.
pub struct WindowListing {
    /// What the enumeration returned; zero if it was refused.
    pub enumerated: i32,
    /// The error code of the operating system after a failure.
    pub last_error: u32,
    /// The windows, in order.
    pub windows: Vec<WindowText>,
}

/// The name that a buffer holds: the text it encodes, without the NUL
/// characters at its end.
pub open spec fn name_in(buffer: Seq<u16>) -> Seq<char> {
    without_trailing_nuls(text_of(buffer))
}

/// The names that the buffers hold.
pub open spec fn names_in(buffers: Seq<Seq<u16>>) -> Set<Seq<char>> {
    Set::new(|name: Seq<char>| exists|i: int| 0 <= i < buffers.len() && name == name_in(buffers[i]))
}

/// The titles of the windows whose title was read.
pub open spec fn titles_in(windows: Seq<(int, Seq<u16>)>) -> Set<Seq<char>> {
    Set::new(
        |name: Seq<char>|
            exists|i: int|
                0 <= i < windows.len() && windows[i].0 != 0 && name == name_in(windows[i].1),
    )
}

impl ProcessListing {
    /// The buffers, in order.
    pub open spec fn buffers(&self) -> Seq<Seq<u16>> {
        Seq::new(self.exe_files.len() as nat, |i: int| self.exe_files[i]@)
    }

    /// Every buffer encodes a text.
    pub open spec fn readable(&self) -> bool {
        forall|i: int| 0 <= i < self.exe_files.len() ==> is_utf16(#[trigger] self.exe_files[i]@)
    }

    /// The names of the processes, or the error code if the enumeration
    /// failed.
    pub open spec fn names(&self) -> Result<Set<Seq<char>>, u32> {
        if self.snapshot == INVALID_HANDLE_VALUE || self.first == 0 {
            Err(self.last_error)
        } else {
            Ok(names_in(self.buffers()))
        }
    }
}

impl WindowListing {
    /// Of each window, in order, the number of code units copied and the
    /// buffer.
    pub open spec fn texts(&self) -> Seq<(int, Seq<u16>)> {
        Seq::new(
            self.windows.len() as nat,
            |i: int| (self.windows[i].copied as int, self.windows[i].buffer@),
        )
    }

    /// Every buffer that a title was copied to encodes a text.
    pub open spec fn readable(&self) -> bool {
        forall|i: int|
            0 <= i < self.windows.len() && self.windows[i].copied != 0 ==> is_utf16(
                #[trigger] self.windows[i].buffer@,
            )
    }

    /// The titles of the windows, or the error code if the enumeration
    /// failed. A window whose title could not be read or is empty adds
    /// nothing.
    pub open spec fn titles(&self) -> Result<Set<Seq<char>>, u32> {
        if self.enumerated == 0 {
            Err(self.last_error)
        } else {
            Ok(titles_in(self.texts()))
        }
    }
}

/// The names of the running processes. Fails with the error code of the
/// operating system if no snapshot was created or the first entry could not
/// be read.
pub fn get_processes_names(listing: &ProcessListing) -> (names: Result<NameSet, u32>)
    requires
        listing.readable(),
    ensures
        names matches Ok(set) ==> listing.names() == Ok::<Set<Seq<char>>, u32>(set@),
        names matches Err(code) ==> listing.names() == Err::<Set<Seq<char>>, u32>(code),
{
    if listing.snapshot == INVALID_HANDLE_VALUE || listing.first == 0 {
        return Err(listing.last_error);
    }
    let mut processes = NameSet::new();
    let ghost buffers = listing.buffers();
    let mut i: usize = 0;
    while i < listing.exe_files.len()
        invariant
            i <= listing.exe_files.len(),
            listing.readable(),
            buffers == listing.buffers(),
            processes@ =~= names_in(buffers.take(i as int)),
        decreases listing.exe_files.len() - i,
    {
        let ghost before = processes@;
        match name_from_wide(&listing.exe_files[i]) {
            Some(name) => {
                assert(name@ == name_in(buffers[i as int]));
                processes.insert(name);
            },
            None => {
                assert(is_utf16(listing.exe_files[i as int]@));
            },
        }
        proof {
            let grown = buffers.take(i + 1);
            let taken = buffers.take(i as int);
            assert forall|name: Seq<char>| processes@.contains(name) <==> names_in(grown).contains(
                name,
            ) by {
                if names_in(grown).contains(name) {
                    let j = choose|j: int| 0 <= j < grown.len() && name == name_in(grown[j]);
                    if j < i {
                        assert(name == name_in(taken[j]));
                    }
                }
                if before.contains(name) {
                    let j = choose|j: int| 0 <= j < taken.len() && name == name_in(taken[j]);
                    assert(name == name_in(grown[j]));
                }
                if name == name_in(buffers[i as int]) {
                    assert(name == name_in(grown[i as int]));
                }
            }
        }
        i += 1;
    }
    proof {
        assert(buffers.take(i as int) =~= buffers);
    }
    Ok(processes)
}

/// Takes note of one top-level window: its title joins `names` if it was
/// read. Returns 1, which tells the enumeration to go on.
pub fn enum_top_windows_cb(names: &mut NameSet, window: &WindowText) -> (go_on: i32)
    requires
        window.copied != 0 ==> is_utf16(window.buffer@),
    ensures
        go_on == 1,
        final(names)@ == if window.copied != 0 {
            old(names)@.insert(name_in(window.buffer@))
        } else {
            old(names)@
        },
{
    if window.copied != 0 {
        match name_from_wide(&window.buffer) {
            Some(name) => {
                names.insert(name);
            },
            None => {},
        }
    }
    1
}

/// The titles of the top-level windows. Fails with the error code of the
/// operating system if the enumeration was refused.
pub fn get_top_window_names(listing: &WindowListing) -> (names: Result<NameSet, u32>)
    requires
        listing.readable(),
    ensures
        names matches Ok(set) ==> listing.titles() == Ok::<Set<Seq<char>>, u32>(set@),
        names matches Err(code) ==> listing.titles() == Err::<Set<Seq<char>>, u32>(code),
{
    if listing.enumerated == 0 {
        return Err(listing.last_error);
    }
    let mut titles = NameSet::new();
    let ghost windows = listing.texts();
    let mut i: usize = 0;
    while i < listing.windows.len()
        invariant
            i <= listing.windows.len(),
            listing.readable(),
            windows == listing.texts(),
            titles@ =~= titles_in(windows.take(i as int)),
        decreases listing.windows.len() - i,
    {
        let ghost before = titles@;
        enum_top_windows_cb(&mut titles, &listing.windows[i]);
        proof {
            let grown = windows.take(i + 1);
            let taken = windows.take(i as int);
            assert forall|name: Seq<char>| titles@.contains(name) <==> titles_in(grown).contains(
                name,
            ) by {
                if titles_in(grown).contains(name) {
                    let j = choose|j: int|
                        0 <= j < grown.len() && grown[j].0 != 0 && name == name_in(grown[j].1);
                    if j < i {
                        assert(taken[j].0 != 0 && name == name_in(taken[j].1));
                    }
                }
                if before.contains(name) {
                    let j = choose|j: int|
                        0 <= j < taken.len() && taken[j].0 != 0 && name == name_in(taken[j].1);
                    assert(grown[j].0 != 0 && name == name_in(grown[j].1));
                }
                if windows[i as int].0 != 0 && name == name_in(windows[i as int].1) {
                    assert(grown[i as int].0 != 0 && name == name_in(grown[i as int].1));
                }
            }
        }
        i += 1;
    }
    proof {
        assert(windows.take(i as int) =~= windows);
    }
    Ok(titles)
}

} // verus!
