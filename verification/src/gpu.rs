//! The verified side of the GPU kernel path: driver-status bookkeeping,
//! the (shape, kernel name) cache, and the launch geometry.
//!
//! The device driver itself is unverified foreign code; what the library
//! contributes is the part a wrong line would silently corrupt: turning a
//! driver status into a typed failure, keeping one module/function entry
//! per (shape, kernel name), sizing the device buffers, and computing a
//! 2-D launch grid that covers every output element with the fixed 16×16
//! block tile.

use vstd::prelude::*;

use crate::cache::cache_after_insert;
use crate::error::MatmulError;
use crate::shape::ShapeKey;
use crate::text::bytes_equal;

verus! {

/// Status of a device driver call, as the driver reports it.
#[allow(non_camel_case_types)]
#[derive(Debug, Clone, Copy, PartialEq, Eq, Structural)]
pub enum CUresult {
    CUDA_SUCCESS,
    CUDA_ERROR_NOT_INITIALIZED,
}

/// Turns a driver status into a typed failure: success passes through,
/// anything else becomes a `DeviceError` carrying the caller's message,
/// fatal to the current call.
pub fn check_cuda_error(result: CUresult, msg: &str) -> (r: Result<(), MatmulError>)
    ensures
        match r {
            Ok(_) => result == CUresult::CUDA_SUCCESS,
            Err(e) => {
                &&& result != CUresult::CUDA_SUCCESS
                &&& e is DeviceError
                &&& e.message_spec() == msg@
            },
        },
{
    match result {
        CUresult::CUDA_SUCCESS => Ok(()),
        CUresult::CUDA_ERROR_NOT_INITIALIZED => Err(MatmulError::DeviceError(msg.to_owned())),
    }
}

/// Threads per edge of the fixed square launch tile.
pub const BLOCK_EDGE: u32 = 16;

/// Bytes per matrix element in device memory.
pub const ELEMENT_BYTES: usize = 4;

/// The block and grid dimensions of one kernel launch.
#[derive(Debug, Clone, Copy, PartialEq, Eq, Structural)]
pub struct LaunchGeometry {
    pub grid_x: u32,
    pub grid_y: u32,
    pub block_x: u32,
    pub block_y: u32,
}

/// Computes the 2-D launch grid for an m×n output: 16×16 thread blocks,
/// with just enough blocks along each axis to cover all n columns and all
/// m rows — never one more.
pub fn launch_geometry(key: &ShapeKey) -> (g: LaunchGeometry)
    requires
        key.wf(),
        key.m + (BLOCK_EDGE - 1) <= u32::MAX,
        key.n + (BLOCK_EDGE - 1) <= u32::MAX,
    ensures
        g.block_x == BLOCK_EDGE,
        g.block_y == BLOCK_EDGE,
        g.grid_x == (key.n + (BLOCK_EDGE - 1) as int) / BLOCK_EDGE as int,
        g.grid_y == (key.m + (BLOCK_EDGE - 1) as int) / BLOCK_EDGE as int,
        g.grid_x * BLOCK_EDGE >= key.n,
        g.grid_y * BLOCK_EDGE >= key.m,
        (g.grid_x - 1) * BLOCK_EDGE < key.n,
        (g.grid_y - 1) * BLOCK_EDGE < key.m,
        g.grid_x >= 1,
        g.grid_y >= 1,
{
    let n32 = key.n as u32;
    let m32 = key.m as u32;
    let grid_x = (n32 + (BLOCK_EDGE - 1)) / BLOCK_EDGE;
    let grid_y = (m32 + (BLOCK_EDGE - 1)) / BLOCK_EDGE;
    proof {
        lemma_cover_div(key.n as int, grid_x as int);
        lemma_cover_div(key.m as int, grid_y as int);
    }
    LaunchGeometry { grid_x, grid_y, block_x: BLOCK_EDGE, block_y: BLOCK_EDGE }
}

/// The quotient (n + 15) / 16 is the least number of 16-wide tiles that
/// covers n elements.
proof fn lemma_cover_div(n: int, q: int)
    requires
        n >= 1,
        q == (n + 15) / 16,
    ensures
        q * 16 >= n,
        (q - 1) * 16 < n,
        q >= 1,
{
    vstd::arithmetic::div_mod::lemma_fundamental_div_mod(n + 15, 16);
    let r = (n + 15) % 16;
    vstd::arithmetic::div_mod::lemma_mod_bound(n + 15, 16);
    assert(n + 15 == 16 * q + r);
}

/// The number of bytes a device buffer of `count` elements occupies.
pub fn device_buffer_bytes(count: usize) -> (r: usize)
    requires
        count * ELEMENT_BYTES <= usize::MAX,
    ensures
        r == count * ELEMENT_BYTES,
{
    count * ELEMENT_BYTES
}

/// The map a GPU cache's entry list denotes, keyed by shape and kernel
/// name.
pub open spec fn gpu_entries_map<V>(s: Seq<(ShapeKey, Vec<u8>, V)>) -> Map<
    (ShapeKey, Seq<u8>),
    V,
>
    decreases s.len(),
{
    if s.len() == 0 {
        Map::empty()
    } else {
        gpu_entries_map(s.drop_last()).insert((s.last().0, s.last().1@), s.last().2)
    }
}

/// No two entries share both shape and kernel name.
pub open spec fn gpu_keys_unique<V>(s: Seq<(ShapeKey, Vec<u8>, V)>) -> bool {
    forall|i: int, j: int|
        0 <= i < j < s.len() ==> ((#[trigger] s[i]).0, s[i].1@) != ((#[trigger] s[j]).0, s[j].1@)
}

/// A (shape, name) pair is in the denoted map exactly when some entry
/// holds it.
proof fn lemma_gpu_entries_map_contains<V>(s: Seq<(ShapeKey, Vec<u8>, V)>, key: (ShapeKey, Seq<u8>))
    ensures
        gpu_entries_map(s).contains_key(key) <==> exists|i: int|
            0 <= i < s.len() && ((#[trigger] s[i]).0, s[i].1@) == key,
    decreases s.len(),
{
    if s.len() > 0 {
        lemma_gpu_entries_map_contains(s.drop_last(), key);
        if (s.last().0, s.last().1@) == key {
            assert((s[s.len() - 1].0, s[s.len() - 1].1@) == key);
        } else if exists|i: int| 0 <= i < s.len() && ((#[trigger] s[i]).0, s[i].1@) == key {
            let i = choose|i: int| 0 <= i < s.len() && ((#[trigger] s[i]).0, s[i].1@) == key;
            assert(s.drop_last()[i] == s[i]);
        }
    }
}

/// Under unique keys, the denoted map sends each entry's key to that
/// entry's value.
proof fn lemma_gpu_entries_map_at<V>(s: Seq<(ShapeKey, Vec<u8>, V)>, i: int)
    requires
        gpu_keys_unique(s),
        0 <= i < s.len(),
    ensures
        gpu_entries_map(s).contains_key((s[i].0, s[i].1@)),
        gpu_entries_map(s)[(s[i].0, s[i].1@)] == s[i].2,
    decreases s.len(),
{
    if i == s.len() - 1 {
        assert(s.last() == s[i]);
    } else {
        assert(s.drop_last()[i] == s[i]);
        lemma_gpu_entries_map_at(s.drop_last(), i);
        assert((s.last().0, s.last().1@) != (s[i].0, s[i].1@));
    }
}

/// Appending an entry for a fresh (shape, name) inserts it into the
/// denoted map.
proof fn lemma_gpu_entries_map_push<V>(s: Seq<(ShapeKey, Vec<u8>, V)>, key: ShapeKey, name: Vec<u8>, value: V)
    ensures
        gpu_entries_map(s.push((key, name, value))) == gpu_entries_map(s).insert(
            (key, name@),
            value,
        ),
{
    let s2 = s.push((key, name, value));
    assert(s2.drop_last() =~= s);
    assert(s2.last() == (key, name, value));
}

/// The GPU kernel cache: a mapping from (shape, kernel name) to a shared
/// entry of type `V` holding the loaded module and resolved function.
/// Entries are immutable once loaded and the first inserter wins, exactly
/// as in the CPU cache.
pub struct GpuKernelCache<V> {
    entries: Vec<(ShapeKey, Vec<u8>, V)>,
}

impl<V> View for GpuKernelCache<V> {
    type V = Map<(ShapeKey, Seq<u8>), V>;

    closed spec fn view(&self) -> Map<(ShapeKey, Seq<u8>), V> {
        gpu_entries_map(self.entries@)
    }
}

impl<V> GpuKernelCache<V> {
    /// The cache never holds two entries for one (shape, name).
    pub closed spec fn wf(&self) -> bool {
        gpu_keys_unique(self.entries@)
    }

    /// An empty cache.
    pub fn new() -> (c: Self)
        ensures
            c@ == Map::<(ShapeKey, Seq<u8>), V>::empty(),
            c.wf(),
    {
        GpuKernelCache { entries: Vec::new() }
    }

    /// Looks a (shape, kernel name) up, returning a borrow of its cached
    /// entry on a hit.
    pub fn get(&self, key: ShapeKey, name: &Vec<u8>) -> (r: Option<&V>)
        requires
            self.wf(),
        ensures
            match r {
                Some(v) => self@.contains_key((key, name@)) && *v == self@[(key, name@)],
                None => !self@.contains_key((key, name@)),
            },
    {
        let mut i: usize = 0;
        let count = self.entries.len();
        while i < count
            invariant
                count == self.entries@.len(),
                0 <= i <= count,
                self.wf(),
                forall|j: int|
                    0 <= j < i ==> ((#[trigger] self.entries@[j]).0, self.entries@[j].1@) != (
                    key,
                    name@,
                    ),
            decreases count - i,
        {
            let entry = &self.entries[i];
            if entry.0 == key && bytes_equal(&entry.1, name) {
                proof {
                    lemma_gpu_entries_map_at(self.entries@, i as int);
                }
                return Some(&entry.2);
            }
            i = i + 1;
        }
        proof {
            lemma_gpu_entries_map_contains(self.entries@, (key, name@));
        }
        None
    }

    /// Offers a freshly loaded entry for a (shape, kernel name); the first
    /// inserter wins, exactly as in [`crate::cache::JitCache`].
    pub fn insert_if_absent(&mut self, key: ShapeKey, name: Vec<u8>, value: V) -> (inserted: bool)
        requires
            old(self).wf(),
        ensures
            final(self).wf(),
            inserted == !old(self)@.contains_key((key, name@)),
            final(self)@ == cache_after_insert(old(self)@, (key, name@), value),
    {
        let already = self.get(key, &name).is_some();
        if already {
            return false;
        }
        proof {
            lemma_gpu_entries_map_contains(self.entries@, (key, name@));
            lemma_gpu_entries_map_push(self.entries@, key, name, value);
        }
        self.entries.push((key, name, value));
        true
    }
}

} // verus!
