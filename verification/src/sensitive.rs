//! The catalog of library operations whose misuse can break memory safety,
//! each in the group that says what it does.

use crate::paths::{registered, tagged, PathMatcher};
use crate::report::ReportLevel;
use vstd::prelude::*;

verus! {

/// Reads a value through a raw pointer.
pub const READ: u32 = 1;

/// Makes an owner out of raw parts.
pub const FROM_RAW: u32 = 2;

/// Copies memory from one raw pointer to another.
pub const COPY: u32 = 3;

/// Sets the length of a vector without a check.
pub const SET_LEN: u32 = 4;

/// Writes a value through a raw pointer.
pub const WRITE: u32 = 5;

/// Indexes without a bounds check.
pub const UNCHECKED_INDEX: u32 = 6;

/// Reinterprets the bits of a value.
pub const TRANSMUTE: u32 = 7;

/// Runs a destructor or frees memory by hand.
pub const DEALLOC: u32 = 8;

/// Relies on memory being initialized.
pub const UNINIT: u32 = 9;

/// The severity of a finding on an operation of `group`: an error for
/// reading through a raw pointer and for making an owner out of raw parts,
/// a warning for copying, writing and setting a length, and information for
/// all others.
pub open spec fn group_severity(group: u32) -> ReportLevel {
    if group == READ || group == FROM_RAW {
        ReportLevel::Error
    } else if group == COPY || group == SET_LEN || group == WRITE {
        ReportLevel::Warning
    } else {
        ReportLevel::Info
    }
}

pub fn severity_of(group: u32) -> (level: ReportLevel)
    ensures
        level == group_severity(group),
{
    if group == READ || group == FROM_RAW {
        ReportLevel::Error
    } else if group == COPY || group == SET_LEN || group == WRITE {
        ReportLevel::Warning
    } else {
        ReportLevel::Info
    }
}

/// The built-in catalog.
pub open spec fn sensitive_entries() -> Seq<(&'static str, u32)> {
    seq![
        ("core::ptr::read", READ),
        ("core::ptr::read_unaligned", READ),
        ("core::ptr::read_volatile", READ),
        ("alloc::vec::Vec::from_raw_parts", FROM_RAW),
        ("core::intrinsics::copy", COPY),
        ("core::intrinsics::copy_nonoverlapping", COPY),
        ("alloc::vec::Vec::set_len", SET_LEN),
        ("core::ptr::write", WRITE),
        ("core::slice::<impl [T]>::get_unchecked", UNCHECKED_INDEX),
        ("core::slice::<impl [T]>::get_unchecked_mut", UNCHECKED_INDEX),
        ("core::intrinsics::transmute", TRANSMUTE),
        ("core::ptr::drop_in_place", DEALLOC),
        ("alloc::alloc::dealloc", DEALLOC),
        ("core::mem::maybe_uninit::MaybeUninit::assume_init", UNINIT),
        ("core::mem::uninitialized", UNINIT),
    ]
}

/// The built-in catalog as a map from components to group.
pub open spec fn sensitive_catalog() -> Map<Seq<Seq<char>>, u32> {
    registered(tagged(sensitive_entries()))
}

/// The built-in catalog.
pub fn sensitive_paths() -> (entries: Vec<(&'static str, u32)>)
    ensures
        entries@ == sensitive_entries(),
{
    let mut entries: Vec<(&'static str, u32)> = Vec::new();
    entries.push(("core::ptr::read", READ));
    entries.push(("core::ptr::read_unaligned", READ));
    entries.push(("core::ptr::read_volatile", READ));
    entries.push(("alloc::vec::Vec::from_raw_parts", FROM_RAW));
    entries.push(("core::intrinsics::copy", COPY));
    entries.push(("core::intrinsics::copy_nonoverlapping", COPY));
    entries.push(("alloc::vec::Vec::set_len", SET_LEN));
    entries.push(("core::ptr::write", WRITE));
    entries.push(("core::slice::<impl [T]>::get_unchecked", UNCHECKED_INDEX));
    entries.push(("core::slice::<impl [T]>::get_unchecked_mut", UNCHECKED_INDEX));
    entries.push(("core::intrinsics::transmute", TRANSMUTE));
    entries.push(("core::ptr::drop_in_place", DEALLOC));
    entries.push(("alloc::alloc::dealloc", DEALLOC));
    entries.push(("core::mem::maybe_uninit::MaybeUninit::assume_init", UNINIT));
    entries.push(("core::mem::uninitialized", UNINIT));
    entries
}

/// No path of the built-in catalog is empty.
proof fn lemma_entries_not_empty()
    ensures
        forall|i: int|
            0 <= i < sensitive_entries().len() ==> (#[trigger] sensitive_entries()[i]).0@.len() > 0,
{
    reveal_strlit("core::ptr::read");
    reveal_strlit("core::ptr::read_unaligned");
    reveal_strlit("core::ptr::read_volatile");
    reveal_strlit("alloc::vec::Vec::from_raw_parts");
    reveal_strlit("core::intrinsics::copy");
    reveal_strlit("core::intrinsics::copy_nonoverlapping");
    reveal_strlit("alloc::vec::Vec::set_len");
    reveal_strlit("core::ptr::write");
    reveal_strlit("core::slice::<impl [T]>::get_unchecked");
    reveal_strlit("core::slice::<impl [T]>::get_unchecked_mut");
    reveal_strlit("core::intrinsics::transmute");
    reveal_strlit("core::ptr::drop_in_place");
    reveal_strlit("alloc::alloc::dealloc");
    reveal_strlit("core::mem::maybe_uninit::MaybeUninit::assume_init");
    reveal_strlit("core::mem::uninitialized");
}

/// A matcher for the built-in catalog.
pub fn sensitive_matcher() -> (m: PathMatcher)
    ensures
        m@ == sensitive_catalog(),
{
    let entries = sensitive_paths();
    match PathMatcher::build_grouped(entries.as_slice()) {
        Ok(m) => m,
        Err(_) => {
            proof {
                lemma_entries_not_empty();
            }
            vstd::pervasive::unreached()
        },
    }
}

} // verus!
