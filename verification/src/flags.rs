//! Flags of virtual memory mappings: how an area is mapped and who may access it.
use vstd::prelude::*;

verus! {

/// How the pages of an area are mapped to frames.
#[derive(Copy, Clone, PartialEq, Eq, Debug, Structural)]
pub enum MapType {
    /// Each page is mapped to the frame with the same number.
    Identical,
    /// Each page is mapped to a frame of its own, allocated for it.
    Framed,
    /// Each page is mapped to the frame whose number is the page number plus an offset.
    Linear(i64),
}

/// Access rights of a mapping; the bits are those of a page table entry.
#[derive(Copy, Clone, PartialEq, Eq, Debug, Structural)]
pub struct MapPermission {
    pub bits: u16,
}

impl MapPermission {
    /// Readable.
    pub const R: u16 = 2;
    /// Writable.
    pub const W: u16 = 4;
    /// Executable.
    pub const X: u16 = 8;
    /// Accessible from user mode.
    pub const U: u16 = 16;

    /// No right.
    pub fn empty() -> (r: MapPermission)
        ensures
            r.bits == 0,
    {
        MapPermission { bits: 0 }
    }

    /// The rights whose bits are `bits`, or `None` when a bit names no right.
    pub fn from_bits(bits: u16) -> (r: Option<MapPermission>)
        ensures
            r == (if bits & !0x1eu16 == 0 {
                Some(MapPermission { bits })
            } else {
                None
            }),
    {
        if bits & !0x1e == 0 {
            Some(MapPermission { bits })
        } else {
            None
        }
    }

    /// The bits of the rights.
    pub fn bits(&self) -> (r: u16)
        ensures
            r == self.bits,
    {
        self.bits
    }

    /// The rights of both.
    pub fn union(&self, other: MapPermission) -> (r: MapPermission)
        ensures
            r.bits == self.bits | other.bits,
    {
        MapPermission { bits: self.bits | other.bits }
    }

    /// Whether every bit of `bits` is set.
    pub fn contains(&self, bits: u16) -> (r: bool)
        ensures
            r == (self.bits & bits == bits),
    {
        self.bits & bits == bits
    }

    /// The rights asked for by the protection of `mmap`: read, write and execute map to R, W
    /// and X, that is the low three bits shifted up by one; no other bit is kept.
    pub fn from_vm_prot(prot: MmapProts) -> (r: MapPermission)
        ensures
            r.bits == ((prot.bits & 7) << 1) as u16,
    {
        if prot.bits == 0 {
            proof {
                let p = prot.bits;
                assert(p == 0 ==> ((p & 7) << 1) as u16 == 0u16) by (bit_vector);
            }
            return MapPermission::empty();
        }
        let mut flags = MapPermission::empty();
        let ghost p = prot.bits;
        let ghost a: u16 = if p & 1 == 1 { 2u16 } else { 0u16 };
        let ghost b: u16 = if p & 2 == 2 { 4u16 } else { 0u16 };
        let ghost c: u16 = if p & 4 == 4 { 8u16 } else { 0u16 };
        if prot.contains(MmapProts::PROT_READ) {
            flags.bits = flags.bits | MapPermission::R;
        }
        proof {
            let f = flags.bits;
            assert(f == a) by (bit_vector)
                requires
                    (p & 1 == 1 ==> f == 0u16 | 2u16),
                    (p & 1 != 1 ==> f == 0u16),
                    a == (if p & 1 == 1 { 2u16 } else { 0u16 }),
            ;
        }
        if prot.contains(MmapProts::PROT_WRITE) {
            flags.bits = flags.bits | MapPermission::W;
        }
        proof {
            let f = flags.bits;
            assert(f == a | b) by (bit_vector)
                requires
                    (p & 2 == 2 ==> f == a | 4u16),
                    (p & 2 != 2 ==> f == a),
                    b == (if p & 2 == 2 { 4u16 } else { 0u16 }),
            ;
        }
        if prot.contains(MmapProts::PROT_EXEC) {
            flags.bits = flags.bits | MapPermission::X;
        }
        proof {
            let f = flags.bits;
            assert(f == a | b | c) by (bit_vector)
                requires
                    (p & 4 == 4 ==> f == (a | b) | 8u16),
                    (p & 4 != 4 ==> f == a | b),
                    c == (if p & 4 == 4 { 8u16 } else { 0u16 }),
            ;
            assert(a | b | c == ((p & 7) << 1) as u16) by (bit_vector)
                requires
                    a == (if p & 1 == 1 { 2u16 } else { 0u16 }),
                    b == (if p & 2 == 2 { 4u16 } else { 0u16 }),
                    c == (if p & 4 == 4 { 8u16 } else { 0u16 }),
            ;
        }
        flags
    }

    /// Whether reading is allowed.
    pub fn readable(self) -> (r: bool)
        ensures
            r == (self.bits & 2 == 2),
    {
        self.contains(MapPermission::R)
    }

    /// Whether writing is allowed.
    pub fn writable(self) -> (r: bool)
        ensures
            r == (self.bits & 4 == 4),
    {
        self.contains(MapPermission::W)
    }

    /// Whether executing is allowed.
    pub fn executable(self) -> (r: bool)
        ensures
            r == (self.bits & 8 == 8),
    {
        self.contains(MapPermission::X)
    }

    /// Whether user mode may access the mapping.
    pub fn is_user(self) -> (r: bool)
        ensures
            r == (self.bits & 16 == 16),
    {
        self.contains(MapPermission::U)
    }
}

/// Protection asked for by `mmap`, see `man mmap`.
#[derive(Copy, Clone, PartialEq, Eq, Debug, Structural)]
pub struct MmapProts {
    pub bits: u64,
}

impl MmapProts {
    /// Not accessible.
    pub const PROT_NONE: u64 = 0;
    /// Readable.
    pub const PROT_READ: u64 = 1;
    /// Writable.
    pub const PROT_WRITE: u64 = 2;
    /// Executable.
    pub const PROT_EXEC: u64 = 4;
    /// Grows down.
    pub const PROT_GROWSDOWN: u64 = 0x0100_0000;
    /// Grows up.
    pub const PROT_GROWSUP: u64 = 0x0200_0000;
    /// Every bit that names a protection.
    pub const ALL: u64 = 0x0300_0007;

    /// The protection whose bits are `bits`, or `None` when a bit names no protection.
    pub fn from_bits(bits: u64) -> (r: Option<MmapProts>)
        ensures
            r == (if bits & !0x0300_0007u64 == 0 {
                Some(MmapProts { bits })
            } else {
                None
            }),
    {
        if bits & !MmapProts::ALL == 0 {
            Some(MmapProts { bits })
        } else {
            None
        }
    }

    /// Whether every bit of `bits` is set.
    pub fn contains(&self, bits: u64) -> (r: bool)
        ensures
            r == (self.bits & bits == bits),
    {
        self.bits & bits == bits
    }
}

/// How `mmap` shares the mapping, see `man mmap`.
#[derive(Copy, Clone, PartialEq, Eq, Debug, Structural)]
pub struct MmapFlags {
    pub bits: u64,
}

impl MmapFlags {
    /// A file mapping (kept for compatibility; no bit).
    pub const MAP_FILE: u64 = 0;
    /// Changes are visible to the other processes that map the same object.
    pub const MAP_SHARED: u64 = 0x01;
    /// Changes are private to the process (copy on write).
    pub const MAP_PRIVATE: u64 = 0x02;
    /// The mapping is placed exactly at the address asked for.
    pub const MAP_FIXED: u64 = 0x10;
    /// The mapping is backed by no file and starts zeroed.
    pub const MAP_ANONYMOUS: u64 = 0x20;
    /// Every bit that names a flag.
    pub const ALL: u64 = 0x33;

    /// The flags whose bits are `bits`, or `None` when a bit names no flag.
    pub fn from_bits(bits: u64) -> (r: Option<MmapFlags>)
        ensures
            r == (if bits & !0x33u64 == 0 {
                Some(MmapFlags { bits })
            } else {
                None
            }),
    {
        if bits & !MmapFlags::ALL == 0 {
            Some(MmapFlags { bits })
        } else {
            None
        }
    }

    /// Whether every bit of `bits` is set.
    pub fn contains(&self, bits: u64) -> (r: bool)
        ensures
            r == (self.bits & bits == bits),
    {
        self.bits & bits == bits
    }
}

} // verus!
