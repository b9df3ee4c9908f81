use vstd::prelude::*;
use super::UEVersion;

verus! {

/// Offsets of object members for an engine version.
#[derive(Clone, Copy, Debug, PartialEq, Eq, Structural)]
pub struct UEOffsets {
    pub uobject_name: usize,
    pub uobject_class: usize,
    pub uobject_outer: usize,
    pub ufield_next: usize,
    pub ustruct_children: usize,
    pub ufunction_func: usize,
}

/// The offsets used when the version is not known.
pub open spec fn default_offsets() -> UEOffsets {
    UEOffsets {
        uobject_name: 0x18,
        uobject_class: 0x10,
        uobject_outer: 0x20,
        ufield_next: 0x28,
        ustruct_children: 0x50,
        ufunction_func: 0xB0,
    }
}

impl UEOffsets {
    pub fn for_version(version: UEVersion) -> (r: UEOffsets)
        ensures
            version == UEVersion::UE5_3 ==> r == (UEOffsets { ufunction_func: 0xB8, ..default_offsets() }),
            version != UEVersion::UE5_3 ==> r == default_offsets(),
    {
        match version {
            UEVersion::UE5_3 => UEOffsets {
                uobject_name: 0x18,
                uobject_class: 0x10,
                uobject_outer: 0x20,
                ufield_next: 0x28,
                ustruct_children: 0x50,
                ufunction_func: 0xB8,
            },
            _ => Self::default(),
        }
    }
}

impl Default for UEOffsets {
    fn default() -> (r: UEOffsets)
        ensures
            r == default_offsets(),
    {
        UEOffsets {
            uobject_name: 0x18,
            uobject_class: 0x10,
            uobject_outer: 0x20,
            ufield_next: 0x28,
            ustruct_children: 0x50,
            ufunction_func: 0xB0,
        }
    }
}

} // verus!
