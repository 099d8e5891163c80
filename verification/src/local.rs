use vstd::prelude::*;
use vstd::slice::slice_subrange;
use crate::error::CommChannelError;
use crate::io::{ByteWriter, MemWrite};
use crate::ring::{
    BufferManager, CommChannelInner, RingBufferManager, CACHE_LINE_SZ, META_AREA,
    SHM_FLAG_IDLE, ring_view, stored_len,
};
use crate::transport::{RecvChannel, SendChannel, lemma_encode_all_len, save_slice};
use crate::wire::{Transportable, encode_all};

verus! {

/// The address of the first byte of `region`'s heap buffer.
///
/// Calls `Vec::as_ptr` and takes the pointer's address. Where the allocator
/// put the buffer is up to the machine; what is stated is only what std
/// documents of every vector and every allocation: a vector's pointer is
/// never null, and an allocation never wraps around the end of the address
/// space.
#[verifier::external_body]
fn region_address(region: &Vec<u8>) -> (addr: usize)
    ensures
        addr != 0,
        addr + region@.len() <= usize::MAX + 1,
{
    region.as_ptr() as usize
}

/// Whether `addr` lies on a cache-line boundary.
pub fn is_cache_line_aligned(addr: usize) -> (b: bool)
    ensures
        b == (addr % CACHE_LINE_SZ == 0),
{
    addr % CACHE_LINE_SZ == 0
}

/// A ring buffer channel in this process's own memory.
///
/// The region is allocated one cache line larger than asked for, so that
/// its start can be moved to a cache-line boundary; the meta area comes
/// first, then the ring's bytes.
pub struct LocalChannel {
    region: Vec<u8>,
    base: usize,
    ptr: usize,
    size: usize,
    head: usize,
    tail: usize,
    flag: u64,
    sent: Ghost<Seq<u8>>,
    taken: Ghost<Seq<u8>>,
}

impl LocalChannel {
    /// The aligned start of the region, as an offset into the allocation.
    pub closed spec fn base_offset(&self) -> nat {
        self.base as nat
    }

    /// Every byte the channel has accepted, in order.
    pub closed spec fn history(&self) -> Seq<u8> {
        self.sent@
    }

    /// Every byte read from the channel, in order.
    pub closed spec fn received(&self) -> Seq<u8> {
        self.taken@
    }

    /// Every byte the channel accepted was either read already or is still
    /// in the ring, in the order it was put.
    pub open spec fn conserves(&self) -> bool {
        self.history() == self.received() + ring_view(self)
    }

    /// The address that `get_ptr` reports.
    pub closed spec fn address(&self) -> usize {
        self.ptr
    }

    /// A channel over a region of `size` bytes, with nothing stored.
    pub fn new(size: usize) -> (c: LocalChannel)
        requires
            size <= usize::MAX - CACHE_LINE_SZ,
        ensures
            c.region_len() == size,
            c.address() % CACHE_LINE_SZ == 0,
            c.address() != 0,
            c.head() == 0,
            c.tail() == 0,
            c.flag() == SHM_FLAG_IDLE,
            size > META_AREA ==> c.ring_wf(),
            size > META_AREA ==> c.data().len() == size - META_AREA,
            size > META_AREA ==> ring_view(&c) == Seq::<u8>::empty(),
            c.history() == Seq::<u8>::empty(),
            c.received() == Seq::<u8>::empty(),
            size > META_AREA ==> c.conserves(),
    {
        let region = vec![0u8; size + CACHE_LINE_SZ];
        let addr = region_address(&region);
        let base = (CACHE_LINE_SZ - addr % CACHE_LINE_SZ) % CACHE_LINE_SZ;
        let ptr = addr + base;
        proof {
            assert(usize::MAX as int == 0xffff_ffffint || usize::MAX as int == 0xffff_ffff_ffff_ffffint);
            assert(ptr % 64 == 0) by (nonlinear_arith)
                requires
                    addr % 64 + base == 64 || (addr % 64 == 0 && base == 0),
                    ptr == addr + base,
                    usize::MAX as int == 0xffff_ffffint || usize::MAX as int == 0xffff_ffff_ffff_ffffint,
            ;
        }
        let c = LocalChannel {
            region,
            base,
            ptr,
            size,
            head: 0,
            tail: 0,
            flag: SHM_FLAG_IDLE,
            sent: Ghost(Seq::empty()),
            taken: Ghost(Seq::empty()),
        };
        assert(ring_view(&c) =~= Seq::<u8>::empty());
        c
    }
}

impl BufferManager for LocalChannel {
    closed spec fn region_len(&self) -> nat {
        self.size as nat
    }

    fn get_ptr(&self) -> (p: usize)
        ensures
            p == self.address(),
    {
        self.ptr
    }

    fn get_len(&self) -> (n: usize) {
        self.size
    }
}

impl RingBufferManager for LocalChannel {
    closed spec fn head(&self) -> nat {
        self.head as nat
    }

    closed spec fn tail(&self) -> nat {
        self.tail as nat
    }

    closed spec fn data(&self) -> Seq<u8> {
        self.region@.subrange(self.base + META_AREA, self.base + self.size)
    }

    closed spec fn flag(&self) -> u64 {
        self.flag
    }

    closed spec fn ring_wf(&self) -> bool {
        &&& self.size > META_AREA
        &&& self.region@.len() == self.size + CACHE_LINE_SZ
        &&& self.region@.len() <= usize::MAX
        &&& self.base < CACHE_LINE_SZ
        &&& self.head < self.size - META_AREA
        &&& self.tail < self.size - META_AREA
    }

    proof fn lemma_ring_layout(&self) {
        assert(self.size > META_AREA);
        assert(self.head < self.size - META_AREA);
        assert(self.head() == self.head);
        assert(self.tail() == self.tail);
        assert(self.data().len() == self.size - META_AREA);
    }

    fn read_head_volatile(&self) -> (h: usize) {
        self.head
    }

    fn write_head_volatile(&mut self, head: usize) {
        self.head = head;
    }

    fn read_tail_volatile(&self) -> (t: usize) {
        self.tail
    }

    fn write_tail_volatile(&mut self, tail: usize) {
        self.tail = tail;
    }

    fn read_flag_volatile(&self) -> (f: u64) {
        self.flag
    }

    fn data_slice(&self, start: usize, end: usize) -> (s: &[u8]) {
        let off = self.base + META_AREA;
        let s = slice_subrange(self.region.as_slice(), off + start, off + end);
        assert(s@ =~= self.data().subrange(start as int, end as int));
        s
    }

    fn write_data(&mut self, pos: usize, src: &[u8]) {
        let off = self.base + META_AREA + pos;
        let n = src.len();
        let mut i: usize = 0;
        while i < n
            invariant
                n == src@.len(),
                off == self.base + META_AREA + pos,
                off + n <= self.base + self.size,
                self.region@.len() == old(self).region@.len(),
                self.region@.len() == self.size + CACHE_LINE_SZ,
                self.base == old(self).base,
                self.base < CACHE_LINE_SZ,
                self.region@.len() <= usize::MAX,
                self.size == old(self).size,
                self.head == old(self).head,
                self.tail == old(self).tail,
                self.flag == old(self).flag,
                self.ptr == old(self).ptr,
                self.sent == old(self).sent,
                self.taken == old(self).taken,
                i <= n,
                forall|k: int|
                    0 <= k < self.region@.len() && !(off <= k < off + i) ==> #[trigger] self.region@[k]
                        == old(self).region@[k],
                forall|k: int| 0 <= k < i ==> self.region@[off + k] == src@[k],
            decreases n - i,
        {
            self.region.set(off + i, src[i]);
            i = i + 1;
        }
        assert(self.data().subrange(pos as int, pos + n) =~= src@);
    }
}

impl CommChannelInner for LocalChannel {
    closed spec fn flush_ready(&self) -> bool {
        stored_len(self.data().len() as int, self.head() as int, self.tail() as int) < self.data().len() - 1
    }

    /// Nobody else reads a local channel, so it returns at once, and only
    /// where there is room.
    fn flush_out(&mut self) -> (r: Result<(), CommChannelError>)
        ensures
            r is Ok,
            *final(self) == *old(self),
    {
        proof {
            assert(self.flush_ready());
        }
        Ok(())
    }
}

impl SendChannel for LocalChannel {
    open spec fn sent(&self) -> Seq<u8> {
        self.history()
    }

    /// The ring takes `n` more bytes while one slot stays empty. Nothing
    /// else reads a local channel, so a put that does not fit would wait
    /// for room forever; a put must fit.
    open spec fn can_put(&self, n: nat) -> bool {
        &&& self.ring_wf()
        &&& ring_view(self).len() + n < self.data().len()
    }

    /// Flushing returns at once where the ring is not full.
    open spec fn can_flush(&self) -> bool {
        self.can_put(1)
    }

    proof fn lemma_can_put_fewer(&self, a: nat, b: nat) {
    }

    fn flush(&mut self) -> (r: Result<(), CommChannelError>)
        ensures
            *final(self) == *old(self),
    {
        proof {
            self.lemma_ring_layout();
            lemma_stored_len_view(self);
        }
        self.flush_out()
    }

    fn put_bytes(&mut self, src: &[u8]) -> (r: Result<(), CommChannelError>)
        ensures
            ring_view(final(self)) == ring_view(old(self)) + src@,
            final(self).received() == old(self).received(),
            final(self).region_len() == old(self).region_len(),
            old(self).conserves() ==> final(self).conserves(),
    {
        let ghost before = self.sent@;
        let ghost got = self.taken@;
        let mut reader: &[u8] = src;
        let r = self.put_from(&mut reader);
        self.sent = Ghost(before + src@);
        self.taken = Ghost(got);
        proof {
            if old(self).conserves() {
                assert(self.history() =~= self.received() + ring_view(self));
            }
        }
        r
    }

    /// The value's bytes join the ring behind what it held.
    fn send<T: Transportable>(&mut self, src: &T) -> (r: Result<(), CommChannelError>)
        ensures
            ring_view(final(self)) == ring_view(old(self)) + src.encode(),
            final(self).received() == old(self).received(),
            final(self).region_len() == old(self).region_len(),
            old(self).conserves() ==> final(self).conserves(),
    {
        let bytes = src.to_bytes();
        proof {
            T::lemma_round_trip(*src);
        }
        self.put_bytes(bytes.as_slice())
    }

    /// The count and the values' bytes join the ring behind what it held.
    fn send_slice<T: Transportable>(&mut self, src: &[T]) -> (r: Result<(), CommChannelError>)
        ensures
            ring_view(final(self)) == ring_view(old(self)) + (src@.len() as usize).encode() + encode_all(src@),
            final(self).received() == old(self).received(),
            final(self).region_len() == old(self).region_len(),
            old(self).conserves() ==> final(self).conserves(),
    {
        let mut bytes: Vec<u8> = Vec::new();
        save_slice(src, &mut bytes);
        proof {
            lemma_encode_all_len(src@);
            usize::lemma_round_trip(src@.len() as usize);
            assert(bytes@ =~= (src@.len() as usize).encode() + encode_all(src@));
        }
        self.put_bytes(bytes.as_slice())
    }
}

impl RecvChannel for LocalChannel {
    /// The bytes in the ring.
    open spec fn pending(&self) -> Seq<u8> {
        ring_view(self)
    }

    /// A read returns at once where the ring holds enough bytes.
    open spec fn can_get(&self, n: nat) -> bool {
        &&& self.ring_wf()
        &&& n <= ring_view(self).len()
    }

    proof fn lemma_can_get_fewer(&self, a: nat, b: nat) {
    }

    /// A local channel's reads are only made where the bytes are there, so
    /// they never fail; were one short, it would be an I/O failure.
    open spec fn short_read_error() -> CommChannelError {
        CommChannelError::IoError
    }

    /// A local channel emulates no network, so it carries no timestamps.
    open spec fn timestamp_len(&self) -> nat {
        0
    }

    fn timestamp_size(&self) -> (n: usize) {
        0
    }

    fn get_bytes(&mut self, dst: &mut [u8]) -> (r: Result<(), CommChannelError>)
        ensures
            r is Ok,
            final(self).history() == old(self).history(),
            final(self).received() == old(self).received() + final(dst)@,
            final(self).region_len() == old(self).region_len(),
            old(self).conserves() ==> final(self).conserves(),
    {
        let n = dst.len();
        let mut writer = ByteWriter::new(n);
        let ghost before = self.sent@;
        let ghost got = self.taken@;
        let ghost pending = ring_view(self);
        let r = self.get_into(&mut writer);
        self.sent = Ghost(before);
        self.taken = Ghost(got + pending.take(n as int));
        let bytes = writer.into_bytes();
        let mut i: usize = 0;
        while i < n
            invariant
                n == dst@.len(),
                bytes@.len() == n,
                i <= n,
                forall|j: int| 0 <= j < i ==> dst@[j] == bytes@[j],
            decreases n - i,
        {
            dst[i] = bytes[i];
            i = i + 1;
        }
        assert(dst@ =~= bytes@);
        proof {
            if old(self).conserves() {
                assert(pending =~= pending.take(n as int) + pending.skip(n as int));
                assert(self.history() =~= self.received() + ring_view(self));
            }
        }
        r
    }
}

/// The count of stored bytes is the length of the ring's contents.
proof fn lemma_stored_len_view(c: &LocalChannel)
    requires
        c.ring_wf(),
    ensures
        ring_view(c).len() == stored_len(c.data().len() as int, c.head() as int, c.tail() as int),
{
    c.lemma_ring_layout();
    crate::ring::lemma_stored_len(c.data(), c.head() as int, c.tail() as int);
}

} // verus!
