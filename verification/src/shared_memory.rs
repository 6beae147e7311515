//! System V shared memory segments, kept by key.
use vstd::prelude::*;
use std::collections::BTreeMap;
use crate::address::PhysAddr;

verus! {

/// The description of a segment, as `shmctl` reports it.
#[derive(Clone, Copy, Debug, PartialEq, Eq, Structural)]
pub struct SharedMemoryIdentifierDs {
    /// Permission bits (the low 9 bits of the flags it was created with).
    pub shm_perm: u32,
    /// Size of the segment in bytes.
    pub shm_size: usize,
    /// Time of the last attach.
    pub shm_atime: usize,
    /// Time of the last detach.
    pub shm_dtime: usize,
    /// Time of creation.
    pub shm_ctime: usize,
    /// Identifier of the creating process.
    pub shm_cpid: usize,
    /// Identifier of the process of the last attach or detach.
    pub shm_lpid: usize,
    /// Number of current attaches.
    pub shm_nattch: usize,
}

/// A segment: its description and its bytes.
pub struct SharedMemoryArea {
    pub shmid_ds: SharedMemoryIdentifierDs,
    pub buffer: Vec<u8>,
}

/// The key that `create` picks for key 0 among the segments `m`: one more than the largest
/// key in use, or 1 when there is none.
pub open spec fn next_key(m: Map<u64, SharedMemoryArea>, r: u64) -> bool {
    if m == Map::<u64, SharedMemoryArea>::empty() {
        r == 1
    } else {
        r > 0 && m.contains_key((r - 1) as u64) && forall|j: u64| m.contains_key(j) ==> j < r
    }
}

/// The segments, by key.
pub struct SharedMemoryManager {
    shm_areas: BTreeMap<u64, SharedMemoryArea>,
}

/// The largest key of a map, or `None` when it is empty.
#[verifier::external_body]
fn last_key<V>(m: &BTreeMap<u64, V>) -> (r: Option<u64>)
    ensures
        match r {
            None => m@ == Map::<u64, V>::empty(),
            Some(k) => m@.contains_key(k) && forall|j: u64| m@.contains_key(j) ==> j <= k,
        },
{
    match m.last_key_value() {
        Some((k, _)) => Some(*k),
        None => None,
    }
}

/// The address of the first byte of a vector's storage.
#[verifier::external_body]
fn buffer_address(v: &Vec<u8>) -> (r: u64) {
    v.as_ptr() as u64
}

/// A zeroed buffer of `n` bytes.
fn zeroed(n: usize) -> (r: Vec<u8>)
    ensures
        r@ == Seq::new(n as nat, |i: int| 0u8),
{
    let mut v: Vec<u8> = Vec::new();
    let mut i: usize = 0;
    while i < n
        invariant
            i <= n,
            v@ == Seq::new(i as nat, |j: int| 0u8),
        decreases n - i,
    {
        v.push(0);
        i = i + 1;
        proof {
            assert(v@ =~= Seq::new(i as nat, |j: int| 0u8));
        }
    }
    v
}

/// Integer keys are ordered as their values are.
proof fn lemma_u64_keys_ordered()
    ensures
        vstd::laws_cmp::obeys_cmp::<u64>(),
{
    broadcast use vstd::laws_cmp::group_laws_cmp;
}

impl SharedMemoryManager {
    /// The segments, by key.
    pub closed spec fn areas(&self) -> Map<u64, SharedMemoryArea> {
        self.shm_areas@
    }

    /// A manager without segments.
    pub fn new() -> (r: SharedMemoryManager)
        ensures
            r.areas() == Map::<u64, SharedMemoryArea>::empty(),
    {
        SharedMemoryManager { shm_areas: BTreeMap::new() }
    }

    /// Creates a zeroed segment of `size` bytes under `key`, or, for key 0, under one more
    /// than the largest key in use (1 when there is none), and returns the key. `pid` is the
    /// creating process and `now` the time. It is a fatal error when the key is in use.
    pub fn create(&mut self, key: u64, size: usize, shmflags: usize, pid: usize, now: usize) -> (r: u64)
        requires
            key != 0 ==> !old(self).areas().contains_key(key),
            key == 0 ==> forall|j: u64| old(self).areas().contains_key(j) ==> j < u64::MAX,
        ensures
            key != 0 ==> r == key,
            key == 0 ==> !old(self).areas().contains_key(r) && r != 0 && next_key(old(self).areas(), r),
            final(self).areas().dom() == old(self).areas().dom().insert(r),
            forall|j: u64| j != r && old(self).areas().contains_key(j) ==> final(self).areas()[j] == old(
                self,
            ).areas()[j],
            final(self).areas()[r].shmid_ds == (SharedMemoryIdentifierDs {
                shm_perm: (shmflags & 0o777) as u32,
                shm_size: size,
                shm_atime: 0,
                shm_dtime: 0,
                shm_ctime: now,
                shm_cpid: pid,
                shm_lpid: 0,
                shm_nattch: 0,
            }),
            final(self).areas()[r].buffer@ == Seq::new(size as nat, |i: int| 0u8),
    {
        proof {
            lemma_u64_keys_ordered();
        }
        let key = if key == 0 {
            match last_key(&self.shm_areas) {
                None => 1,
                Some(last) => {
                    assert(old(self).areas().contains_key(last));
                    assert(old(self).areas() != Map::<u64, SharedMemoryArea>::empty());
                    assert(((last + 1) as u64 - 1) as u64 == last);
                    last + 1
                },
            }
        } else {
            key
        };
        let perm = perm_bits(shmflags);
        let shmid_ds = SharedMemoryIdentifierDs {
            shm_perm: perm,
            shm_size: size,
            shm_atime: 0,
            shm_dtime: 0,
            shm_ctime: now,
            shm_cpid: pid,
            shm_lpid: 0,
            shm_nattch: 0,
        };
        let buffer = zeroed(size);
        let shm_area = SharedMemoryArea { shmid_ds, buffer };
        if self.shm_areas.contains_key(&key) {
            assert(false);
        }
        self.shm_areas.insert(key, shm_area);
        proof {
            assert(self.areas().dom() =~= old(self).areas().dom().insert(key));
        }
        key
    }

    /// Records an attach of segment `key` by process `pid` at time `now`. It is a fatal error
    /// on an unknown key.
    pub fn attach(&mut self, key: u64, pid: usize, now: usize)
        requires
            old(self).areas().contains_key(key),
            old(self).areas()[key].shmid_ds.shm_nattch < usize::MAX,
        ensures
            final(self).areas().dom() == old(self).areas().dom(),
            forall|j: u64| j != key && old(self).areas().contains_key(j) ==> final(self).areas()[j] == old(
                self,
            ).areas()[j],
            final(self).areas()[key].buffer == old(self).areas()[key].buffer,
            final(self).areas()[key].shmid_ds == (SharedMemoryIdentifierDs {
                shm_atime: now,
                shm_lpid: pid,
                shm_nattch: (old(self).areas()[key].shmid_ds.shm_nattch + 1) as usize,
                ..old(self).areas()[key].shmid_ds
            }),
    {
        proof {
            lemma_u64_keys_ordered();
        }
        let mut shm_area = self.shm_areas.remove(&key).unwrap();
        shm_area.shmid_ds.shm_atime = now;
        shm_area.shmid_ds.shm_lpid = pid;
        shm_area.shmid_ds.shm_nattch = shm_area.shmid_ds.shm_nattch + 1;
        self.shm_areas.insert(key, shm_area);
        proof {
            assert(self.areas().dom() =~= old(self).areas().dom());
        }
    }

    /// Records a detach of segment `key` by process `pid` at time `now`. It is a fatal error
    /// on an unknown key, and its count of attaches underflows below 0.
    pub fn detach(&mut self, key: u64, pid: usize, now: usize)
        requires
            old(self).areas().contains_key(key),
            old(self).areas()[key].shmid_ds.shm_nattch > 0,
        ensures
            final(self).areas().dom() == old(self).areas().dom(),
            forall|j: u64| j != key && old(self).areas().contains_key(j) ==> final(self).areas()[j] == old(
                self,
            ).areas()[j],
            final(self).areas()[key].buffer == old(self).areas()[key].buffer,
            final(self).areas()[key].shmid_ds == (SharedMemoryIdentifierDs {
                shm_dtime: now,
                shm_lpid: pid,
                shm_nattch: (old(self).areas()[key].shmid_ds.shm_nattch - 1) as usize,
                ..old(self).areas()[key].shmid_ds
            }),
    {
        proof {
            lemma_u64_keys_ordered();
        }
        let mut shm_area = self.shm_areas.remove(&key).unwrap();
        shm_area.shmid_ds.shm_dtime = now;
        shm_area.shmid_ds.shm_lpid = pid;
        shm_area.shmid_ds.shm_nattch = shm_area.shmid_ds.shm_nattch - 1;
        self.shm_areas.insert(key, shm_area);
        proof {
            assert(self.areas().dom() =~= old(self).areas().dom());
        }
    }

    /// Removes segment `key` when nothing is attached to it; else keeps it. It is a fatal error on an unknown key.
    pub fn remove(&mut self, key: u64)
        requires
            old(self).areas().contains_key(key),
        ensures
            old(self).areas()[key].shmid_ds.shm_nattch == 0 ==> final(self).areas() == old(
                self,
            ).areas().remove(key),
            old(self).areas()[key].shmid_ds.shm_nattch != 0 ==> final(self).areas() == old(self).areas(),
    {
        proof {
            lemma_u64_keys_ordered();
        }
        let nattch = self.shm_areas.get(&key).unwrap().shmid_ds.shm_nattch;
        if nattch == 0 {
            self.shm_areas.remove(&key);
        }
    }

    /// The address of the bytes of segment `key` and its size. The address is wherever the
    /// segment's storage lies, taken as a physical address. It is a fatal error on an
    /// unknown key.
    pub fn get_address_and_size(&self, key: u64) -> (r: (PhysAddr, usize))
        requires
            self.areas().contains_key(key),
        ensures
            r.1 == self.areas()[key].shmid_ds.shm_size,
            r.0.0 < 0x100_0000_0000_0000,
    {
        proof {
            lemma_u64_keys_ordered();
        }
        let shm_area = self.shm_areas.get(&key).unwrap();
        let size = shm_area.shmid_ds.shm_size;
        (PhysAddr::from_u64(buffer_address(&shm_area.buffer)), size)
    }

    /// Whether there is a segment of key `key`.
    pub(crate) fn has_segment(&self, key: u64) -> (r: bool)
        ensures
            r == self.areas().contains_key(key),
    {
        proof {
            lemma_u64_keys_ordered();
        }
        self.shm_areas.contains_key(&key)
    }

    /// The number of current attaches of segment `key`. It is a fatal error on an unknown
    /// key.
    pub fn get_nattch(&self, key: u64) -> (r: usize)
        requires
            self.areas().contains_key(key),
        ensures
            r == self.areas()[key].shmid_ds.shm_nattch,
    {
        proof {
            lemma_u64_keys_ordered();
        }
        self.shm_areas.get(&key).unwrap().shmid_ds.shm_nattch
    }
}

/// The permission bits of the flags given to `shmget`: their low 9 bits.
pub fn perm_bits(shmflags: usize) -> (r: u32)
    ensures
        r == (shmflags & 0o777) as u32,
{
    (shmflags & 0o777) as u32
}

/// A handle that holds one attach of a segment.
pub struct SharedMemoryTracker {
    pub key: u64,
}

impl SharedMemoryTracker {
    /// Attaches segment `key` and returns a handle on the attach.
    pub fn new(key: u64, manager: &mut SharedMemoryManager, pid: usize, now: usize) -> (r: SharedMemoryTracker)
        requires
            old(manager).areas().contains_key(key),
            old(manager).areas()[key].shmid_ds.shm_nattch < usize::MAX,
        ensures
            r.key == key,
            final(manager).areas().dom() == old(manager).areas().dom(),
            final(manager).areas()[key].shmid_ds.shm_nattch == old(manager).areas()[key].shmid_ds.shm_nattch
                + 1,
    {
        manager.attach(key, pid, now);
        SharedMemoryTracker { key }
    }

    /// Gives the attach back (what dropping the handle does).
    pub fn release(self, manager: &mut SharedMemoryManager, pid: usize, now: usize)
        requires
            old(manager).areas().contains_key(self.key),
            old(manager).areas()[self.key].shmid_ds.shm_nattch > 0,
        ensures
            final(manager).areas().dom() == old(manager).areas().dom(),
            final(manager).areas()[self.key].shmid_ds.shm_nattch == old(manager).areas()[self.key].shmid_ds.shm_nattch
                - 1,
    {
        manager.detach(self.key, pid, now);
    }
}

/// Creates a segment in `manager`, see [`SharedMemoryManager::create`].
pub fn create_shm(manager: &mut SharedMemoryManager, key: u64, size: usize, perm: usize, pid: usize, now: usize) -> (r: u64)
    requires
        key != 0 ==> !old(manager).areas().contains_key(key),
        key == 0 ==> forall|j: u64| old(manager).areas().contains_key(j) ==> j < u64::MAX,
    ensures
        key != 0 ==> r == key,
        key == 0 ==> !old(manager).areas().contains_key(r) && next_key(old(manager).areas(), r),
        final(manager).areas().dom() == old(manager).areas().dom().insert(r),
        forall|j: u64| j != r && old(manager).areas().contains_key(j) ==> final(manager).areas()[j] == old(
            manager,
        ).areas()[j],
        final(manager).areas()[r].shmid_ds.shm_nattch == 0,
        final(manager).areas()[r].shmid_ds.shm_size == size,
        final(manager).areas()[r].buffer@ == Seq::new(size as nat, |i: int| 0u8),
{
    manager.create(key, size, perm, pid, now)
}

/// Records an attach of segment `key`, see [`SharedMemoryManager::attach`].
pub fn attach_shm(manager: &mut SharedMemoryManager, key: u64, pid: usize, now: usize)
    requires
        old(manager).areas().contains_key(key),
        old(manager).areas()[key].shmid_ds.shm_nattch < usize::MAX,
    ensures
        final(manager).areas().dom() == old(manager).areas().dom(),
        final(manager).areas()[key].shmid_ds.shm_nattch == old(manager).areas()[key].shmid_ds.shm_nattch + 1,
{
    manager.attach(key, pid, now);
}

/// Records a detach of segment `key`, see [`SharedMemoryManager::detach`].
pub fn detach_shm(manager: &mut SharedMemoryManager, key: u64, pid: usize, now: usize)
    requires
        old(manager).areas().contains_key(key),
        old(manager).areas()[key].shmid_ds.shm_nattch > 0,
    ensures
        final(manager).areas().dom() == old(manager).areas().dom(),
        final(manager).areas()[key].shmid_ds.shm_nattch == old(manager).areas()[key].shmid_ds.shm_nattch - 1,
{
    manager.detach(key, pid, now);
}

/// Removes segment `key` when nothing is attached to it, see [`SharedMemoryManager::remove`].
pub fn remove_shm(manager: &mut SharedMemoryManager, key: u64)
    requires
        old(manager).areas().contains_key(key),
    ensures
        old(manager).areas()[key].shmid_ds.shm_nattch == 0 ==> final(manager).areas() == old(
            manager,
        ).areas().remove(key),
        old(manager).areas()[key].shmid_ds.shm_nattch != 0 ==> final(manager).areas() == old(
            manager,
        ).areas(),
{
    manager.remove(key);
}

/// The address and size of segment `key`, see [`SharedMemoryManager::get_address_and_size`].
pub fn shm_get_address_and_size(manager: &SharedMemoryManager, key: u64) -> (r: (PhysAddr, usize))
    requires
        manager.areas().contains_key(key),
    ensures
        r.1 == manager.areas()[key].shmid_ds.shm_size,
{
    manager.get_address_and_size(key)
}

/// The number of attaches of segment `key`, see [`SharedMemoryManager::get_nattch`].
pub fn shm_get_nattch(manager: &SharedMemoryManager, key: u64) -> (r: usize)
    requires
        manager.areas().contains_key(key),
    ensures
        r == manager.areas()[key].shmid_ds.shm_nattch,
{
    manager.get_nattch(key)
}

} // verus!
