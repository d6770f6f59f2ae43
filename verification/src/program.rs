//! A loaded program image: a fixed-capacity ROM buffer with its name.

use vstd::prelude::*;

verus! {

/// The largest program a machine can hold: memory capacity minus the
/// interpreter area.
pub const PROGRAM_SIZE_MAX: usize = 3584;

/// A program ready to load: its display name, a ROM buffer of exactly
/// PROGRAM_SIZE_MAX bytes, and how many of those bytes the program
/// actually fills.
pub struct Program {
    pub name: String,
    pub rom: Vec<u8>,
    pub size: usize,
}

impl Program {
    /// The buffer has its fixed capacity and the size fits in it.
    pub open spec fn wf(&self) -> bool {
        &&& self.rom@.len() == PROGRAM_SIZE_MAX
        &&& self.size <= PROGRAM_SIZE_MAX
    }

    /// Package raw program bytes under a name: the bytes fill the fixed
    /// ROM buffer from the front, zero-padded, and bytes beyond the
    /// buffer's capacity are dropped.
    pub fn from_bytes(name: String, data: &[u8]) -> (r: Program)
        ensures
            r.wf(),
            r.name == name,
            r.size == (if data@.len() <= PROGRAM_SIZE_MAX {
                data@.len() as int
            } else {
                PROGRAM_SIZE_MAX as int
            }),
            forall|k: int|
                0 <= k < PROGRAM_SIZE_MAX ==> (#[trigger] r.rom@[k]) == (if k < data@.len() {
                    data@[k]
                } else {
                    0u8
                }),
    {
        let mut rom: Vec<u8> = Vec::new();
        let mut k: usize = 0;
        while k < PROGRAM_SIZE_MAX
            invariant
                k <= PROGRAM_SIZE_MAX,
                rom@.len() == k,
                forall|m: int|
                    0 <= m < k ==> (#[trigger] rom@[m]) == (if m < data@.len() {
                        data@[m]
                    } else {
                        0u8
                    }),
            decreases PROGRAM_SIZE_MAX - k,
        {
            if k < data.len() {
                rom.push(data[k]);
            } else {
                rom.push(0);
            }
            k = k + 1;
        }
        let size = if data.len() <= PROGRAM_SIZE_MAX {
            data.len()
        } else {
            PROGRAM_SIZE_MAX
        };
        Program { name, rom, size }
    }
}

} // verus!
