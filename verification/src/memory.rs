//! The shared buffer store and the message fabric on top of it.
//!
//! Byte payloads are held centrally under fresh 128-bit block ids,
//! each with a checksum, creation and access statistics, and a fixed
//! time-to-live counted from creation. The fabric inlines small
//! payloads into messages and promotes large ones to the store.

use crate::platform;
use crate::table::{
    lemma_sum_remove, lemma_sum_take_all, lemma_sum_take_step, lemma_table_contains,
    lemma_table_dom_len, lemma_table_index, lemma_table_push, lemma_table_remove, sum_by,
    table_find, table_map, unique_keys,
};
use vstd::prelude::*;
use vstd::string::StringExecFns;

verus! {

/// Payloads up to this many bytes travel inline in a message.
pub const MAX_INLINE_SIZE: usize = 1024;

/// A shared buffer lives this many seconds from its creation.
pub const SHARED_MEMORY_TTL: u64 = 300;

/// The sweeper is meant to run once per this many seconds.
pub const CLEANUP_INTERVAL_SECONDS: u64 = 60;

#[derive(Debug)]
pub enum MemoryError {
    BlockNotFound(u128),
    BlockExpired(u128),
    Corruption(u128),
    SerializationError(String),
    AllocationError(String),
    AccessDenied(u128),
}

/// Offset basis of the 64-bit FNV-1a checksum.
pub const CHECKSUM_SEED: u64 = 0xcbf29ce484222325;

/// Multiplier of the 64-bit FNV-1a checksum.
pub const CHECKSUM_PRIME: u64 = 0x100000001b3;

/// The checksum of a byte sequence: 64-bit FNV-1a, folded over the
/// bytes from first to last. Identical inputs always yield identical
/// checksums.
pub open spec fn checksum_of(data: Seq<u8>) -> u64
    decreases data.len(),
{
    if data.len() == 0 {
        CHECKSUM_SEED
    } else {
        (checksum_of(data.drop_last()) ^ (data.last() as u64)).wrapping_mul(CHECKSUM_PRIME)
    }
}

/// Computes the checksum a buffer is stored and verified under.
pub fn calculate_checksum(data: &Vec<u8>) -> (r: u64)
    ensures
        r == checksum_of(data@),
{
    let mut h: u64 = CHECKSUM_SEED;
    let mut i: usize = 0;
    while i < data.len()
        invariant
            i <= data@.len(),
            h == checksum_of(data@.take(i as int)),
        decreases data@.len() - i,
    {
        proof {
            assert(data@.take(i + 1).drop_last() =~= data@.take(i as int));
            assert(data@.take(i + 1).last() == data@[i as int]);
        }
        h = (h ^ (data[i] as u64)).wrapping_mul(CHECKSUM_PRIME);
        i = i + 1;
    }
    proof {
        assert(data@.take(data@.len() as int) =~= data@);
    }
    h
}

/// Handle to a shared buffer: enough to look the block up and check
/// its integrity, without owning the bytes.
#[derive(Clone, Copy, PartialEq, Eq, Structural, Debug)]
pub struct SharedMemoryRef {
    pub block_id: u128,
    pub size: usize,
    pub checksum: u64,
    pub expires_at: u64,
}

/// One stored buffer and its bookkeeping.
pub struct SharedMemoryBlock {
    pub data: Vec<u8>,
    pub created_at: u64,
    pub accessed_at: u64,
    pub access_count: u64,
    pub owner: String,
}

/// The mathematical shape of a stored block.
pub ghost struct BlockModel {
    pub data: Seq<u8>,
    pub created_at: u64,
    pub accessed_at: u64,
    pub access_count: u64,
    pub owner: Seq<char>,
}

impl SharedMemoryBlock {
    pub open spec fn model(self) -> BlockModel {
        BlockModel {
            data: self.data@,
            created_at: self.created_at,
            accessed_at: self.accessed_at,
            access_count: self.access_count,
            owner: self.owner@,
        }
    }
}

/// The block a fresh allocation records.
pub open spec fn alloc_model(data: Seq<u8>, owner: Seq<char>, now: u64) -> BlockModel {
    BlockModel { data, created_at: now, accessed_at: now, access_count: 0, owner }
}

/// The reference a fresh allocation hands back.
pub open spec fn alloc_ref(id: u128, data: Seq<u8>, now: u64) -> SharedMemoryRef {
    SharedMemoryRef {
        block_id: id,
        size: data.len() as usize,
        checksum: checksum_of(data),
        expires_at: (now + SHARED_MEMORY_TTL) as u64,
    }
}

/// A block is expired once its time-to-live, counted from creation,
/// has passed.
pub open spec fn block_expired(b: BlockModel, now: u64) -> bool {
    b.created_at + SHARED_MEMORY_TTL < now
}

/// A saturating increment: access counters stop at the maximum
/// rather than wrap.
pub open spec fn inc64(c: u64) -> u64 {
    if c == u64::MAX {
        c
    } else {
        (c + 1) as u64
    }
}

/// What a read of `rf` against store `m` at time `now` yields.
pub ghost enum ReadOutcome {
    Expired,
    NotFound,
    Corrupt,
    Value(Seq<u8>),
}

pub open spec fn read_outcome(m: Map<u128, BlockModel>, rf: SharedMemoryRef, now: u64) -> ReadOutcome {
    if now > rf.expires_at {
        ReadOutcome::Expired
    } else if !m.contains_key(rf.block_id) {
        ReadOutcome::NotFound
    } else if checksum_of(m[rf.block_id].data) != rf.checksum {
        ReadOutcome::Corrupt
    } else {
        ReadOutcome::Value(m[rf.block_id].data)
    }
}

/// Round-trip law: whatever the store held before, allocating a
/// payload and reading the returned reference at any time up to its
/// expiry yields exactly the allocated bytes, and the checksum in
/// the reference is the checksum of those bytes.
pub proof fn lemma_allocate_read_round_trip(
    m: Map<u128, BlockModel>,
    id: u128,
    data: Seq<u8>,
    owner: Seq<char>,
    now: u64,
    later: u64,
)
    requires
        now + SHARED_MEMORY_TTL <= u64::MAX,
        later <= now + SHARED_MEMORY_TTL,
    ensures
        read_outcome(m.insert(id, alloc_model(data, owner, now)), alloc_ref(id, data, now), later)
            == ReadOutcome::Value(data),
        alloc_ref(id, data, now).checksum == checksum_of(data),
{
}

/// Time-to-live law: past its expiry time a reference is unreadable,
/// whatever the store holds.
pub proof fn lemma_expired_unreadable(m: Map<u128, BlockModel>, rf: SharedMemoryRef, now: u64)
    requires
        now > rf.expires_at,
    ensures
        read_outcome(m, rf, now) == ReadOutcome::Expired,
{
}

/// Everything one read of a shared reference does, by its outcome:
/// on Expired, NotFound or Corruption the exact error and an
/// unchanged store; on success the stored bytes and exactly the
/// access-stat bump of that block.
pub open spec fn shared_read_post(
    pre: Map<u128, BlockModel>,
    post: Map<u128, BlockModel>,
    rf: SharedMemoryRef,
    now: u64,
    r: Result<Vec<u8>, MemoryError>,
) -> bool {
    &&& (read_outcome(pre, rf, now) is Expired ==> r == Err::<Vec<u8>, MemoryError>(
        MemoryError::BlockExpired(rf.block_id),
    ) && post == pre)
    &&& (read_outcome(pre, rf, now) is NotFound ==> r == Err::<Vec<u8>, MemoryError>(
        MemoryError::BlockNotFound(rf.block_id),
    ) && post == pre)
    &&& (read_outcome(pre, rf, now) is Corrupt ==> r == Err::<Vec<u8>, MemoryError>(
        MemoryError::Corruption(rf.block_id),
    ) && post == pre)
    &&& (read_outcome(pre, rf, now) matches ReadOutcome::Value(d) ==> (r matches Ok(v) && v@ == d)
        && post == pre.insert(
        rf.block_id,
        BlockModel {
            accessed_at: now,
            access_count: inc64(pre[rf.block_id].access_count),
            ..pre[rf.block_id]
        },
    ))
}

/// Copies a byte buffer.
fn copy_bytes(v: &Vec<u8>) -> (r: Vec<u8>)
    ensures
        r@ == v@,
{
    let mut r: Vec<u8> = Vec::new();
    let mut i: usize = 0;
    while i < v.len()
        invariant
            i <= v@.len(),
            r@ == v@.take(i as int),
        decreases v@.len() - i,
    {
        proof {
            assert(v@.take(i + 1).drop_last() =~= v@.take(i as int));
            assert(v@.take(i + 1).last() == v@[i as int]);
        }
        r.push(v[i]);
        i = i + 1;
    }
    proof {
        assert(v@.take(v@.len() as int) =~= v@);
    }
    r
}

/// The measure summed for the store's total size.
pub open spec fn entry_size() -> spec_fn((u128, SharedMemoryBlock)) -> int {
    |e: (u128, SharedMemoryBlock)| e.1.data@.len() as int
}

/// The measure summed for the store's total access count.
pub open spec fn entry_access() -> spec_fn((u128, SharedMemoryBlock)) -> int {
    |e: (u128, SharedMemoryBlock)| e.1.access_count as int
}

/// Keyed store of shared buffers.
pub struct SharedMemoryManager {
    blocks: Vec<(u128, SharedMemoryBlock)>,
}

impl View for SharedMemoryManager {
    type V = Map<u128, BlockModel>;

    closed spec fn view(&self) -> Map<u128, BlockModel> {
        table_map(self.blocks@).map_values(|b: SharedMemoryBlock| b.model())
    }
}

impl SharedMemoryManager {
    pub closed spec fn wf(self) -> bool {
        unique_keys(self.blocks@)
    }

    pub closed spec fn spec_count(self) -> int {
        self.blocks@.len() as int
    }

    pub closed spec fn spec_total_size(self) -> int {
        sum_by(self.blocks@, entry_size())
    }

    pub closed spec fn spec_total_access(self) -> int {
        sum_by(self.blocks@, entry_access())
    }

    pub fn new() -> (r: SharedMemoryManager)
        ensures
            r.wf(),
            r@ == Map::<u128, BlockModel>::empty(),
            r.spec_count() == 0,
            r.spec_total_size() == 0,
            r.spec_total_access() == 0,
    {
        let r = SharedMemoryManager { blocks: Vec::new() };
        proof {
            assert(r@ =~= Map::<u128, BlockModel>::empty());
        }
        r
    }

    /// Records `data` under a fresh random block id at time `now` and
    /// returns the reference `alloc_ref` describes: the payload's
    /// size, its checksum, and an expiry of `now` plus the
    /// time-to-live.
    pub fn allocate_block_at(&mut self, data: Vec<u8>, owner: &str, now: u64) -> (r: Result<
        SharedMemoryRef,
        MemoryError,
    >)
        requires
            old(self).wf(),
            now <= u64::MAX - SHARED_MEMORY_TTL,
        ensures
            final(self).wf(),
            r is Ok,
            (r matches Ok(rf) ==> {
                &&& rf == alloc_ref(rf.block_id, data@, now)
                &&& final(self)@ == old(self)@.insert(rf.block_id, alloc_model(data@, owner@, now))
            }),
            (r matches Ok(rf) && !old(self)@.contains_key(rf.block_id) ==> {
                &&& final(self).spec_count() == old(self).spec_count() + 1
                &&& final(self).spec_total_size() == old(self).spec_total_size() + data@.len()
                &&& final(self).spec_total_access() == old(self).spec_total_access()
            }),
    {
        let id = platform::fresh_id();
        let checksum = calculate_checksum(&data);
        let size = data.len();
        let block = SharedMemoryBlock {
            data,
            created_at: now,
            accessed_at: now,
            access_count: 0,
            owner: owner.to_owned(),
        };
        let ghost pre = self.blocks@;
        // a colliding entry, however unlikely, is replaced outright
        match table_find(&self.blocks, id) {
            Some(i) => {
                proof {
                    lemma_table_remove(self.blocks@, i as int);
                }
                let _ = self.blocks.remove(i);
            },
            None => {},
        }
        proof {
            lemma_table_push(self.blocks@, id, block);
            lemma_table_contains(pre, id);
        }
        self.blocks.push((id, block));
        proof {
            let rawpre = table_map(pre);
            let rawpost = table_map(self.blocks@);
            assert(rawpost =~= rawpre.insert(id, block));
            assert(self@ =~= old(self)@.insert(id, block.model()));
            if !old(self)@.contains_key(id) {
                assert(!rawpre.contains_key(id));
                assert(self.blocks@.drop_last() =~= pre);
                lemma_sum_take_all(pre, entry_size());
                lemma_sum_take_all(pre, entry_access());
            }
        }
        Ok(SharedMemoryRef { block_id: id, size, checksum, expires_at: now + SHARED_MEMORY_TTL })
    }

    /// Allocates against the wall clock. Fails only if the clock
    /// reads too close to the end of the representable range for an
    /// expiry time to exist.
    pub fn allocate_block(&mut self, data: Vec<u8>, owner: &str) -> (r: Result<
        SharedMemoryRef,
        MemoryError,
    >)
        requires
            old(self).wf(),
        ensures
            final(self).wf(),
            (r matches Ok(rf) ==> exists|now: u64|
                {
                    &&& now <= u64::MAX - SHARED_MEMORY_TTL
                    &&& rf == alloc_ref(rf.block_id, data@, now)
                    &&& final(self)@ == old(self)@.insert(
                        rf.block_id,
                        alloc_model(data@, owner@, now),
                    )
                }),
            (r is Err ==> final(self)@ == old(self)@),
    {
        let now = platform::current_unix_seconds();
        if now > u64::MAX - SHARED_MEMORY_TTL {
            return Err(MemoryError::AllocationError("System time error".to_owned()));
        }
        let r = self.allocate_block_at(data, owner, now);
        proof {
            let rf = r->Ok_0;
            assert({
                &&& now <= u64::MAX - SHARED_MEMORY_TTL
                &&& rf == alloc_ref(rf.block_id, data@, now)
                &&& self@ == old(self)@.insert(rf.block_id, alloc_model(data@, owner@, now))
            });
        }
        r
    }

    /// Reads the referenced block at time `now`: fails with Expired
    /// past the reference's expiry, NotFound for an unknown id and
    /// Corruption on a checksum mismatch, exactly as `read_outcome`
    /// says; on success returns a copy of the bytes and bumps the
    /// block's access statistics. Reading never extends a block's
    /// lifetime.
    pub fn read_block_at(&mut self, block_ref: &SharedMemoryRef, now: u64) -> (r: Result<
        Vec<u8>,
        MemoryError,
    >)
        requires
            old(self).wf(),
        ensures
            final(self).wf(),
            (read_outcome(old(self)@, *block_ref, now) is Expired ==> r == Err::<Vec<u8>,
            MemoryError>(MemoryError::BlockExpired(block_ref.block_id)) && final(self)@ == old(self)@),
            (read_outcome(old(self)@, *block_ref, now) is NotFound ==> r == Err::<Vec<u8>,
            MemoryError>(MemoryError::BlockNotFound(block_ref.block_id)) && final(self)@ == old(self)@),
            (read_outcome(old(self)@, *block_ref, now) is Corrupt ==> r == Err::<Vec<u8>,
            MemoryError>(MemoryError::Corruption(block_ref.block_id)) && final(self)@ == old(self)@),
            (read_outcome(old(self)@, *block_ref, now) matches ReadOutcome::Value(d) ==> {
                &&& r matches Ok(v) && v@ == d
                &&& final(self)@ == old(self)@.insert(
                    block_ref.block_id,
                    BlockModel {
                        accessed_at: now,
                        access_count: inc64(old(self)@[block_ref.block_id].access_count),
                        ..old(self)@[block_ref.block_id]
                    },
                )
            }),
            final(self).spec_count() == old(self).spec_count(),
            final(self).spec_total_size() == old(self).spec_total_size(),
    {
        if now > block_ref.expires_at {
            return Err(MemoryError::BlockExpired(block_ref.block_id));
        }
        let found = table_find(&self.blocks, block_ref.block_id);
        proof {
            lemma_table_contains(self.blocks@, block_ref.block_id);
        }
        match found {
            None => Err(MemoryError::BlockNotFound(block_ref.block_id)),
            Some(i) => {
                proof {
                    lemma_table_index(self.blocks@, i as int);
                }
                let checksum = calculate_checksum(&self.blocks[i].1.data);
                if checksum != block_ref.checksum {
                    Err(MemoryError::Corruption(block_ref.block_id))
                } else {
                    let out = copy_bytes(&self.blocks[i].1.data);
                    let ghost pre = self.blocks@;
                    proof {
                        lemma_table_remove(self.blocks@, i as int);
                        lemma_sum_remove(self.blocks@, i as int, entry_size());
                        lemma_sum_remove(self.blocks@, i as int, entry_access());
                    }
                    let (k, mut blk) = self.blocks.remove(i);
                    blk.accessed_at = now;
                    blk.access_count = if blk.access_count < u64::MAX {
                        blk.access_count + 1
                    } else {
                        blk.access_count
                    };
                    proof {
                        assert(forall|j: int|
                            0 <= j < self.blocks@.len() ==> self.blocks@[j].0 != k) by {
                            assert(forall|j: int|
                                0 <= j < self.blocks@.len() ==> #[trigger] self.blocks@[j]
                                    == if j < i { pre[j] } else { pre[j + 1] });
                        }
                        lemma_table_push(self.blocks@, k, blk);
                    }
                    self.blocks.push((k, blk));
                    proof {
                        assert(self.blocks@.drop_last() =~= pre.remove(i as int));
                        lemma_sum_take_all(pre.remove(i as int), entry_size());
                        lemma_sum_take_all(pre.remove(i as int), entry_access());
                        assert(table_map(self.blocks@) =~= table_map(pre).insert(k, blk));
                        assert(final(self)@ =~= old(self)@.insert(
                            k,
                            BlockModel {
                                accessed_at: now,
                                access_count: inc64(old(self)@[k].access_count),
                                ..old(self)@[k]
                            },
                        ));
                    }
                    Ok(out)
                }
            },
        }
    }

    /// Reads against the wall clock.
    pub fn read_block(&mut self, block_ref: &SharedMemoryRef) -> (r: Result<Vec<u8>, MemoryError>)
        requires
            old(self).wf(),
        ensures
            final(self).wf(),
            (exists|now: u64|
                {
                    &&& (read_outcome(old(self)@, *block_ref, now) matches ReadOutcome::Value(d)
                        ==> r matches Ok(v) && v@ == d)
                    &&& (!(read_outcome(old(self)@, *block_ref, now) is Value) ==> r is Err
                        && final(self)@ == old(self)@)
                }),
            final(self).spec_count() == old(self).spec_count(),
            final(self).spec_total_size() == old(self).spec_total_size(),
    {
        let now = platform::current_unix_seconds();
        let r = self.read_block_at(block_ref, now);
        proof {
            assert({
                &&& (read_outcome(old(self)@, *block_ref, now) matches ReadOutcome::Value(d) ==> r
                    matches Ok(v) && v@ == d)
                &&& (!(read_outcome(old(self)@, *block_ref, now) is Value) ==> r is Err && self@
                    == old(self)@)
            });
        }
        r
    }

    /// Removes the block under `block_id`; NotFound if absent.
    pub fn deallocate_block(&mut self, block_id: u128) -> (r: Result<(), MemoryError>)
        requires
            old(self).wf(),
        ensures
            final(self).wf(),
            (old(self)@.contains_key(block_id) ==> {
                &&& r is Ok
                &&& final(self)@ == old(self)@.remove(block_id)
                &&& final(self).spec_count() == old(self).spec_count() - 1
                &&& final(self).spec_total_size() == old(self).spec_total_size() - old(self)@[block_id].data.len()
            }),
            (!old(self)@.contains_key(block_id) ==> r == Err::<(), MemoryError>(
                MemoryError::BlockNotFound(block_id),
            ) && final(self)@ == old(self)@ && final(self).spec_count() == old(self).spec_count()
                && final(self).spec_total_size() == old(self).spec_total_size()),
    {
        let found = table_find(&self.blocks, block_id);
        proof {
            lemma_table_contains(self.blocks@, block_id);
        }
        match found {
            None => Err(MemoryError::BlockNotFound(block_id)),
            Some(i) => {
                proof {
                    lemma_table_index(self.blocks@, i as int);
                    lemma_table_remove(self.blocks@, i as int);
                    lemma_sum_remove(self.blocks@, i as int, entry_size());
                }
                let _ = self.blocks.remove(i);
                proof {
                    assert(final(self)@ =~= old(self)@.remove(block_id));
                }
                Ok(())
            },
        }
    }

    /// Snapshot of the store: block count, total stored bytes
    /// (saturating at the representable maximum) and the mean access
    /// count over all blocks, each exactly as the store's abstract
    /// totals say.
    pub fn get_memory_stats(&self) -> (r: MemoryStats)
        requires
            self.wf(),
        ensures
            r.total_blocks == self.spec_count(),
            r.total_size == if self.spec_total_size() <= usize::MAX as int {
                self.spec_total_size()
            } else {
                usize::MAX as int
            },
            r.average_access_count == if self.spec_count() == 0 {
                0
            } else {
                self.spec_total_access() / self.spec_count()
            },
    {
        let n = self.blocks.len();
        let mut total_size: u128 = 0;
        let mut total_access: u128 = 0;
        let mut i: usize = 0;
        while i < n
            invariant
                n == self.blocks@.len(),
                i <= n,
                total_size == sum_by(self.blocks@.take(i as int), entry_size()),
                total_size <= (i as int) * (usize::MAX as int),
                total_access == sum_by(self.blocks@.take(i as int), entry_access()),
                total_access <= (i as int) * (u64::MAX as int),
            decreases n - i,
        {
            proof {
                lemma_sum_take_step(self.blocks@, i as int, entry_size());
                lemma_sum_take_step(self.blocks@, i as int, entry_access());
            }
            total_size = total_size + (self.blocks[i].1.data.len() as u128);
            total_access = total_access + (self.blocks[i].1.access_count as u128);
            i = i + 1;
        }
        proof {
            lemma_sum_take_all(self.blocks@, entry_size());
            lemma_sum_take_all(self.blocks@, entry_access());
        }
        let avg: u64 = if n == 0 {
            0
        } else {
            proof {
                assert(total_access / (n as u128) <= u64::MAX) by (nonlinear_arith)
                    requires
                        n > 0,
                        total_access <= (n as int) * (u64::MAX as int),
                ;
            }
            (total_access / (n as u128)) as u64
        };
        let size_out: usize = if total_size > usize::MAX as u128 {
            usize::MAX
        } else {
            total_size as usize
        };
        MemoryStats { total_blocks: n, total_size: size_out, average_access_count: avg }
    }

    /// Removes every block whose time-to-live has passed at `now`,
    /// leaves every other block untouched, and returns how many were
    /// removed.
    pub fn cleanup_expired_blocks(&mut self, now: u64) -> (removed: usize)
        requires
            old(self).wf(),
        ensures
            final(self).wf(),
            swept(old(self)@, final(self)@, now),
            removed == old(self).spec_count() - final(self).spec_count(),
    {
        let ghost orig = *self;
        let total = self.blocks.len();
        let mut removed: usize = 0;
        let mut scanning = true;
        while scanning
            invariant
                self.wf(),
                total == orig.blocks@.len(),
                removed + self.blocks@.len() == total,
                forall|k: u128| #[trigger]
                    self@.contains_key(k) ==> orig@.contains_key(k) && self@[k] == orig@[k],
                forall|k: u128| #[trigger]
                    orig@.contains_key(k) && !block_expired(orig@[k], now) ==> self@.contains_key(
                        k,
                    ),
                !scanning ==> forall|k: u128| #[trigger]
                    self@.contains_key(k) ==> !block_expired(self@[k], now),
            decreases self.blocks@.len() + if scanning {
                1int
            } else {
                0int
            },
        {
            let found = find_expired(&self.blocks, now);
            match found {
                None => {
                    proof {
                        assert(forall|k: u128| #[trigger]
                            self@.contains_key(k) ==> !block_expired(self@[k], now)) by {
                            assert(forall|k: u128| #[trigger]
                                table_map(self.blocks@).contains_key(k) ==> !block_expired(
                                    table_map(self.blocks@)[k].model(),
                                    now,
                                )) by {
                                assert forall|k: u128| #[trigger]
                                    table_map(self.blocks@).contains_key(k) implies !block_expired(
                                    table_map(self.blocks@)[k].model(),
                                    now,
                                ) by {
                                    lemma_table_contains(self.blocks@, k);
                                    let j = choose|j: int|
                                        0 <= j < self.blocks@.len() && self.blocks@[j].0 == k;
                                    lemma_table_index(self.blocks@, j);
                                }
                            }
                        }
                    }
                    scanning = false;
                },
                Some(i) => {
                    let ghost pre = *self;
                    proof {
                        lemma_table_index(self.blocks@, i as int);
                        lemma_table_remove(self.blocks@, i as int);
                    }
                    let (k, _) = self.blocks.remove(i);
                    removed = removed + 1;
                    proof {
                        assert(self@ =~= pre@.remove(k));
                        assert(pre@.contains_key(k) && block_expired(pre@[k], now));
                    }
                },
            }
        }
        proof {
            lemma_table_dom_len(orig.blocks@);
            lemma_table_dom_len(self.blocks@);
        }
        removed
    }

    /// Sweeps against the wall clock and returns the removed count.
    pub fn cleanup_expired(&mut self) -> (removed: usize)
        requires
            old(self).wf(),
        ensures
            final(self).wf(),
            exists|now: u64| #[trigger]
                swept(old(self)@, final(self)@, now) && removed == old(self).spec_count() - final(self).spec_count(),
    {
        let now = platform::current_unix_seconds();
        let removed = self.cleanup_expired_blocks(now);
        proof {
            assert(swept(old(self)@, self@, now) && removed == old(self).spec_count()
                - self.spec_count());
        }
        removed
    }
}

/// After a sweep at `now`: the surviving blocks are exactly the
/// unexpired blocks of the earlier store, each unchanged.
pub open spec fn swept(pre: Map<u128, BlockModel>, post: Map<u128, BlockModel>, now: u64) -> bool {
    &&& forall|k: u128| #[trigger]
        post.contains_key(k) ==> pre.contains_key(k) && !block_expired(pre[k], now) && post[k]
            == pre[k]
    &&& forall|k: u128|
        pre.contains_key(k) && !block_expired(pre[k], now) ==> #[trigger] post.contains_key(k)
}

/// Finds the index of some expired entry, or reports there is none.
fn find_expired(entries: &Vec<(u128, SharedMemoryBlock)>, now: u64) -> (r: Option<usize>)
    ensures
        match r {
            Some(i) => i < entries@.len() && block_expired(entries@[i as int].1.model(), now),
            None => forall|i: int|
                0 <= i < entries@.len() ==> !block_expired(entries@[i].1.model(), now),
        },
{
    let mut i: usize = 0;
    while i < entries.len()
        invariant
            i <= entries@.len(),
            forall|j: int| 0 <= j < i ==> !block_expired(entries@[j].1.model(), now),
        decreases entries@.len() - i,
    {
        let created = entries[i].1.created_at;
        if created <= u64::MAX - SHARED_MEMORY_TTL && created + SHARED_MEMORY_TTL < now {
            return Some(i);
        }
        i = i + 1;
    }
    None
}

/// Store snapshot totals. The mean access count is the integer
/// quotient of total accesses by the block count.
#[derive(Clone, Copy, PartialEq, Eq, Structural, Debug)]
pub struct MemoryStats {
    pub total_blocks: usize,
    pub total_size: usize,
    pub average_access_count: u64,
}

/// A message payload: small ones travel inline, large ones as a
/// reference into the shared buffer store.
pub enum MessageData {
    Inline(Vec<u8>),
    SharedRef(SharedMemoryRef),
}

#[derive(Clone, Copy, PartialEq, Eq, Structural, Debug)]
pub enum MessagePriority {
    Low,
    Normal,
    High,
    Critical,
}

/// One message of the fabric.
pub struct Message {
    pub id: u128,
    pub sender: String,
    pub recipient: String,
    pub method: String,
    pub data: MessageData,
    pub timestamp: u64,
    pub priority: MessagePriority,
}

/// A handler the embedding program registers for one method name.
pub trait MessageHandler: Send + Sync {
    fn handle_message(&self, message: Message) -> Result<Message, MemoryError>;
}

/// The message fabric: frames payloads over the shared buffer store
/// and keeps the registered handlers.
pub struct MessagePassingSystem {
    memory_manager: SharedMemoryManager,
    message_handlers: Vec<(String, Box<dyn MessageHandler>)>,
}

impl View for MessagePassingSystem {
    type V = Map<u128, BlockModel>;

    closed spec fn view(&self) -> Map<u128, BlockModel> {
        self.memory_manager@
    }
}

impl MessagePassingSystem {
    pub closed spec fn wf(self) -> bool {
        self.memory_manager.wf()
    }

    pub closed spec fn spec_count(self) -> int {
        self.memory_manager.spec_count()
    }

    pub closed spec fn spec_total_size(self) -> int {
        self.memory_manager.spec_total_size()
    }

    pub closed spec fn spec_total_access(self) -> int {
        self.memory_manager.spec_total_access()
    }

    pub closed spec fn spec_handler_count(self) -> int {
        self.message_handlers@.len() as int
    }

    pub fn new() -> (r: MessagePassingSystem)
        ensures
            r.wf(),
            r@ == Map::<u128, BlockModel>::empty(),
            r.spec_count() == 0,
            r.spec_handler_count() == 0,
    {
        MessagePassingSystem {
            memory_manager: SharedMemoryManager::new(),
            message_handlers: Vec::new(),
        }
    }

    /// Builds a message at time `now`. Framing law: the payload is
    /// carried inline exactly when it is at most `MAX_INLINE_SIZE`
    /// bytes; otherwise it is allocated in the store under the
    /// sender's name and carried as a reference.
    pub fn create_message_at(
        &mut self,
        sender: &str,
        recipient: &str,
        method: &str,
        data: Vec<u8>,
        priority: MessagePriority,
        now: u64,
    ) -> (r: Result<Message, MemoryError>)
        requires
            old(self).wf(),
            now <= u64::MAX - SHARED_MEMORY_TTL,
        ensures
            final(self).wf(),
            r is Ok,
            (r matches Ok(msg) ==> {
                &&& msg.sender@ == sender@
                &&& msg.recipient@ == recipient@
                &&& msg.method@ == method@
                &&& msg.timestamp == now
                &&& msg.priority == priority
                &&& (msg.data is Inline <==> data@.len() <= MAX_INLINE_SIZE)
                &&& (msg.data matches MessageData::Inline(b) ==> b@ == data@ && final(self)@ == old(self)@)
                &&& (msg.data matches MessageData::SharedRef(rf) ==> {
                    &&& rf == alloc_ref(rf.block_id, data@, now)
                    &&& final(self)@ == old(self)@.insert(
                        rf.block_id,
                        alloc_model(data@, sender@, now),
                    )
                })
            }),
    {
        let message_id = platform::fresh_id();
        let message_data = if data.len() > MAX_INLINE_SIZE {
            let shared_ref = match self.memory_manager.allocate_block_at(data, sender, now) {
                Ok(rf) => rf,
                Err(e) => {
                    return Err(e);
                },
            };
            MessageData::SharedRef(shared_ref)
        } else {
            MessageData::Inline(data)
        };
        Ok(
            Message {
                id: message_id,
                sender: sender.to_owned(),
                recipient: recipient.to_owned(),
                method: method.to_owned(),
                data: message_data,
                timestamp: now,
                priority,
            },
        )
    }

    /// Builds a message against the wall clock.
    pub fn create_message(
        &mut self,
        sender: &str,
        recipient: &str,
        method: &str,
        data: Vec<u8>,
        priority: MessagePriority,
    ) -> (r: Result<Message, MemoryError>)
        requires
            old(self).wf(),
        ensures
            final(self).wf(),
            (r matches Ok(msg) ==> {
                &&& msg.sender@ == sender@
                &&& msg.recipient@ == recipient@
                &&& msg.method@ == method@
                &&& msg.priority == priority
                &&& (msg.data is Inline <==> data@.len() <= MAX_INLINE_SIZE)
                &&& (msg.data matches MessageData::Inline(b) ==> b@ == data@ && final(self)@ == old(self)@)
                &&& (msg.data matches MessageData::SharedRef(rf) ==> exists|now: u64|
                    rf == alloc_ref(rf.block_id, data@, now) && final(self)@ == #[trigger] old(
                        self,
                    )@.insert(rf.block_id, alloc_model(data@, sender@, now)))
            }),
            (r is Err ==> final(self)@ == old(self)@),
    {
        let now = platform::current_unix_seconds();
        if now > u64::MAX - SHARED_MEMORY_TTL {
            return Err(MemoryError::AllocationError("System time error".to_owned()));
        }
        let r = self.create_message_at(sender, recipient, method, data, priority, now);
        proof {
            if r is Ok {
                let msg = r->Ok_0;
                if msg.data is SharedRef {
                    let rf = msg.data->SharedRef_0;
                    assert(rf == alloc_ref(rf.block_id, data@, now) && self@ == old(self)@.insert(
                        rf.block_id,
                        alloc_model(data@, sender@, now),
                    ));
                }
            }
        }
        r
    }

    /// Extracts a message's payload bytes at time `now`: inline data
    /// is copied out directly, a shared reference is read from the
    /// store under its usual expiry, lookup and integrity rules.
    pub fn get_message_data_at(&mut self, message: &Message, now: u64) -> (r: Result<
        Vec<u8>,
        MemoryError,
    >)
        requires
            old(self).wf(),
        ensures
            final(self).wf(),
            (message.data matches MessageData::Inline(b) ==> r matches Ok(v) && v@ == b@ && final(self)@
                == old(self)@),
            (message.data matches MessageData::SharedRef(rf) ==> shared_read_post(
                old(self)@,
                final(self)@,
                rf,
                now,
                r,
            )),
    {
        match &message.data {
            MessageData::Inline(data) => Ok(copy_bytes(data)),
            MessageData::SharedRef(shared_ref) => {
                let rf = *shared_ref;
                let r = self.memory_manager.read_block_at(&rf, now);
                proof {
                    assert(shared_read_post(old(self)@, self@, rf, now, r));
                }
                r
            },
        }
    }

    /// Extracts a message's payload against the wall clock.
    pub fn get_message_data(&mut self, message: &Message) -> (r: Result<Vec<u8>, MemoryError>)
        requires
            old(self).wf(),
        ensures
            final(self).wf(),
            (message.data matches MessageData::Inline(b) ==> r matches Ok(v) && v@ == b@ && final(self)@
                == old(self)@),
            (message.data matches MessageData::SharedRef(rf) ==> exists|now: u64| #[trigger]
                shared_read_post(old(self)@, final(self)@, rf, now, r)),
    {
        let now = platform::current_unix_seconds();
        let r = self.get_message_data_at(message, now);
        proof {
            if message.data is SharedRef {
                let rf = message.data->SharedRef_0;
                assert(shared_read_post(old(self)@, self@, rf, now, r));
            }
        }
        r
    }

    /// Checks that a message's payload is deliverable, reading it
    /// once, as a send does: an inline payload always is, a shared
    /// one exactly when its buffer is alive and intact.
    pub fn send_message(&mut self, message: Message) -> (r: Result<(), MemoryError>)
        requires
            old(self).wf(),
        ensures
            final(self).wf(),
            (message.data is Inline ==> r is Ok && final(self)@ == old(self)@),
            (message.data matches MessageData::SharedRef(rf) ==> exists|now: u64|
                {
                    &&& (#[trigger] read_outcome(old(self)@, rf, now) matches ReadOutcome::Value(
                        d,
                    ) ==> r is Ok && final(self)@ == old(self)@.insert(
                        rf.block_id,
                        BlockModel {
                            accessed_at: now,
                            access_count: inc64(old(self)@[rf.block_id].access_count),
                            ..old(self)@[rf.block_id]
                        },
                    ))
                    &&& (read_outcome(old(self)@, rf, now) is Expired ==> r == Err::<(),
                    MemoryError>(MemoryError::BlockExpired(rf.block_id)) && final(self)@ == old(self)@)
                    &&& (read_outcome(old(self)@, rf, now) is NotFound ==> r == Err::<(),
                    MemoryError>(MemoryError::BlockNotFound(rf.block_id)) && final(self)@ == old(self)@)
                    &&& (read_outcome(old(self)@, rf, now) is Corrupt ==> r == Err::<(),
                    MemoryError>(MemoryError::Corruption(rf.block_id)) && final(self)@ == old(self)@)
                }),
    {
        let r0 = self.get_message_data(&message);
        let r = match r0 {
            Ok(_) => Ok(()),
            Err(e) => Err(e),
        };
        proof {
            if message.data is SharedRef {
                let rf = message.data->SharedRef_0;
                let w = choose|now: u64| #[trigger]
                    shared_read_post(old(self)@, self@, rf, now, r0);
                assert({
                    &&& (read_outcome(old(self)@, rf, w) matches ReadOutcome::Value(d) ==> r is Ok
                        && self@ == old(self)@.insert(
                        rf.block_id,
                        BlockModel {
                            accessed_at: w,
                            access_count: inc64(old(self)@[rf.block_id].access_count),
                            ..old(self)@[rf.block_id]
                        },
                    ))
                    &&& (read_outcome(old(self)@, rf, w) is Expired ==> r == Err::<(),
                    MemoryError>(MemoryError::BlockExpired(rf.block_id)) && self@ == old(self)@)
                    &&& (read_outcome(old(self)@, rf, w) is NotFound ==> r == Err::<(),
                    MemoryError>(MemoryError::BlockNotFound(rf.block_id)) && self@ == old(self)@)
                    &&& (read_outcome(old(self)@, rf, w) is Corrupt ==> r == Err::<(),
                    MemoryError>(MemoryError::Corruption(rf.block_id)) && self@ == old(self)@)
                });
            }
        }
        r
    }

    /// Releases a message's shared buffer, if it carries one.
    pub fn cleanup_message(&mut self, message: &Message) -> (r: Result<(), MemoryError>)
        requires
            old(self).wf(),
        ensures
            final(self).wf(),
            (message.data is Inline ==> r is Ok && final(self)@ == old(self)@),
            (message.data matches MessageData::SharedRef(rf) ==> {
                &&& (old(self)@.contains_key(rf.block_id) ==> r is Ok && final(self)@ == old(self)@.remove(
                    rf.block_id,
                ) && final(self).spec_count() == old(self).spec_count() - 1)
                &&& (!old(self)@.contains_key(rf.block_id) ==> r == Err::<(), MemoryError>(
                    MemoryError::BlockNotFound(rf.block_id),
                ) && final(self)@ == old(self)@)
            }),
    {
        match &message.data {
            MessageData::Inline(_) => Ok(()),
            MessageData::SharedRef(shared_ref) => self.memory_manager.deallocate_block(
                shared_ref.block_id,
            ),
        }
    }

    /// Registers a handler under a method name; the store is left
    /// untouched.
    pub fn register_handler(&mut self, method: &str, handler: Box<dyn MessageHandler>)
        ensures
            final(self).wf() == old(self).wf(),
            final(self)@ == old(self)@,
            final(self).spec_handler_count() == old(self).spec_handler_count() + 1,
    {
        let entry = (method.to_owned(), handler);
        self.message_handlers.push(entry);
        proof {
            assert(self.message_handlers@.len() == old(self).message_handlers@.len() + 1);
        }
    }

    /// Sweeps the underlying store at `now`, exactly as the manager
    /// does: every expired block goes, every other block stays.
    pub fn cleanup_expired_blocks(&mut self, now: u64) -> (removed: usize)
        requires
            old(self).wf(),
        ensures
            final(self).wf(),
            swept(old(self)@, final(self)@, now),
            removed == old(self).spec_count() - final(self).spec_count(),
    {
        self.memory_manager.cleanup_expired_blocks(now)
    }

    /// Sweeps the underlying store against the wall clock.
    pub fn cleanup_expired(&mut self) -> (removed: usize)
        requires
            old(self).wf(),
        ensures
            final(self).wf(),
            exists|now: u64| #[trigger]
                swept(old(self)@, final(self)@, now) && removed == old(self).spec_count() - final(self).spec_count(),
    {
        let removed = self.memory_manager.cleanup_expired();
        proof {
            let w = choose|now: u64| #[trigger]
                swept(old(self).memory_manager@, self.memory_manager@, now) && removed == old(self).memory_manager.spec_count() - self.memory_manager.spec_count();
            assert(swept(old(self)@, self@, w) && removed == old(self).spec_count()
                - self.spec_count());
        }
        removed
    }

    /// Store snapshot, as the underlying manager reports it.
    pub fn get_memory_stats(&self) -> (r: MemoryStats)
        requires
            self.wf(),
        ensures
            r.total_blocks == self.spec_count(),
            r.total_size == if self.spec_total_size() <= usize::MAX as int {
                self.spec_total_size()
            } else {
                usize::MAX as int
            },
            r.average_access_count == if self.spec_count() == 0 {
                0
            } else {
                self.spec_total_access() / self.spec_count()
            },
    {
        self.memory_manager.get_memory_stats()
    }
}

/// The fixed acknowledgement payload: the ASCII bytes of "success".
pub open spec fn ack_payload() -> Seq<u8> {
    seq![115u8, 117u8, 99u8, 99u8, 101u8, 115u8, 115u8]
}

/// Builds the acknowledgement for one message: addressed back to the
/// message's sender from its recipient, under the message's method
/// name with "_response" appended, carrying the fixed
/// acknowledgement payload, stamped with the given id and time and
/// keeping the message's priority.
pub fn acknowledge_message(message: Message, id: u128, timestamp: u64) -> (r: Message)
    ensures
        r.id == id,
        r.sender@ == message.recipient@,
        r.recipient@ == message.sender@,
        r.method@ == message.method@ + "_response"@,
        (r.data matches MessageData::Inline(b) && b@ == ack_payload()),
        r.timestamp == timestamp,
        r.priority == message.priority,
{
    let mut method = message.method;
    method.append("_response");
    let mut ack: Vec<u8> = Vec::new();
    ack.push(115);
    ack.push(117);
    ack.push(99);
    ack.push(99);
    ack.push(101);
    ack.push(115);
    ack.push(115);
    proof {
        assert(ack@ =~= ack_payload());
    }
    Message {
        id,
        sender: message.recipient,
        recipient: message.sender,
        method,
        data: MessageData::Inline(ack),
        timestamp,
        priority: message.priority,
    }
}

/// A handler that answers each message with the acknowledgement
/// `acknowledge_message` describes, under a fresh id at the current
/// wall clock.
pub struct OcamlMessageHandler;

impl MessageHandler for OcamlMessageHandler {
    fn handle_message(&self, message: Message) -> Result<Message, MemoryError> {
        Ok(acknowledge_message(message, platform::fresh_id(), platform::current_unix_seconds()))
    }
}

} // verus!
