use vstd::prelude::*;
use crate::error::CommChannelError;
use crate::io::{MemRead, MemWrite};
use vstd::arithmetic::div_mod::{lemma_small_mod, lemma_mod_self_0};

verus! {

/// The size of a cache line; the meta area is laid out in cache lines.
pub const CACHE_LINE_SZ: usize = 64;

/// Offset of the consumer's position (head) in the meta area.
pub const HEAD_OFF: usize = 0;
/// Offset of the producer's position (tail) in the meta area.
pub const TAIL_OFF: usize = CACHE_LINE_SZ;
/// Offset of the access flag in the meta area.
pub const FLAG_OFF: usize = CACHE_LINE_SZ * 2;
/// Size of the meta area that precedes the ring's bytes.
pub const META_AREA: usize = CACHE_LINE_SZ * 3;

/// Flag value: nobody holds the channel.
pub const SHM_FLAG_IDLE: u64 = 0;
/// Flag bit: the client holds the channel.
pub const SHM_FLAG_IN_USE: u64 = 1;
/// Flag bit: the producer side has been switched off.
pub const SHM_FLAG_WRITE_DISABLED: u64 = 2;

/// The bytes that a ring over `data` holds between `head` (first byte to
/// read) and `tail` (next byte to write), in the order they were written.
pub open spec fn ring_contents(data: Seq<u8>, head: int, tail: int) -> Seq<u8> {
    if head <= tail {
        data.subrange(head, tail)
    } else {
        data.subrange(head, data.len() as int) + data.subrange(0, tail)
    }
}

/// How many bytes a ring of `cap` bytes holds between `head` and `tail`.
pub open spec fn stored_len(cap: int, head: int, tail: int) -> int {
    if tail >= head {
        tail - head
    } else {
        cap - (head - tail)
    }
}

/// How many bytes can be written at `tail` without wrapping and without
/// catching up with `head`; one slot always stays empty.
pub open spec fn contiguous_write_len(cap: int, head: int, tail: int) -> int {
    let h = if head == 0 {
        cap
    } else {
        head
    };
    if tail >= h {
        cap - tail
    } else {
        h - tail - 1
    }
}

/// How many stored bytes can be read at `head` without wrapping.
pub open spec fn contiguous_read_len(cap: int, head: int, tail: int) -> int {
    if tail >= head {
        tail - head
    } else {
        cap - head
    }
}

pub open spec fn min(a: int, b: int) -> int {
    if a <= b {
        a
    } else {
        b
    }
}

/// A buffer in memory that a channel runs on.
pub trait BufferManager: Sized {
    /// The length of the whole region, meta area included.
    spec fn region_len(&self) -> nat;

    /// The address of the region's first byte.
    fn get_ptr(&self) -> (p: usize);

    /// The length of the whole region, meta area included.
    fn get_len(&self) -> (n: usize)
        ensures
            n == self.region_len(),
    ;
}

/// A ring buffer laid out in a region: the meta area, then `capacity` bytes.
pub trait RingBufferManager: BufferManager {
    /// The consumer's position.
    spec fn head(&self) -> nat;

    /// The producer's position.
    spec fn tail(&self) -> nat;

    /// The ring's bytes, `capacity` of them.
    spec fn data(&self) -> Seq<u8>;

    /// The access flag.
    spec fn flag(&self) -> u64;

    /// The ring is laid out in the region, and both positions lie in it.
    spec fn ring_wf(&self) -> bool;

    /// What a well-formed ring guarantees of its layout.
    proof fn lemma_ring_layout(&self)
        requires
            self.ring_wf(),
        ensures
            self.region_len() > META_AREA,
            self.data().len() == self.region_len() - META_AREA,
            self.head() < self.data().len(),
            self.tail() < self.data().len(),
            self.region_len() <= usize::MAX,
    ;

    fn read_head_volatile(&self) -> (h: usize)
        requires
            self.ring_wf(),
        ensures
            h == self.head(),
    ;

    fn write_head_volatile(&mut self, head: usize)
        requires
            old(self).ring_wf(),
            head < old(self).data().len(),
        ensures
            final(self).ring_wf(),
            final(self).head() == head,
            final(self).tail() == old(self).tail(),
            final(self).data() == old(self).data(),
            final(self).flag() == old(self).flag(),
            final(self).region_len() == old(self).region_len(),
    ;

    fn read_tail_volatile(&self) -> (t: usize)
        requires
            self.ring_wf(),
        ensures
            t == self.tail(),
    ;

    fn write_tail_volatile(&mut self, tail: usize)
        requires
            old(self).ring_wf(),
            tail < old(self).data().len(),
        ensures
            final(self).ring_wf(),
            final(self).tail() == tail,
            final(self).head() == old(self).head(),
            final(self).data() == old(self).data(),
            final(self).flag() == old(self).flag(),
            final(self).region_len() == old(self).region_len(),
    ;

    fn read_flag_volatile(&self) -> (f: u64)
        ensures
            f == self.flag(),
    ;

    /// The ring's bytes from `start` to `end`.
    fn data_slice(&self, start: usize, end: usize) -> (s: &[u8])
        requires
            self.ring_wf(),
            start <= end <= self.data().len(),
        ensures
            s@ == self.data().subrange(start as int, end as int),
    ;

    /// Writes `src` into the ring's bytes at `pos`.
    fn write_data(&mut self, pos: usize, src: &[u8])
        requires
            old(self).ring_wf(),
            pos + src@.len() <= old(self).data().len(),
        ensures
            final(self).ring_wf(),
            final(self).data().len() == old(self).data().len(),
            final(self).data().subrange(pos as int, pos + src@.len()) == src@,
            forall|i: int|
                0 <= i < old(self).data().len() && !(pos <= i < pos + src@.len())
                    ==> #[trigger] final(self).data()[i] == old(self).data()[i],
            final(self).head() == old(self).head(),
            final(self).tail() == old(self).tail(),
            final(self).flag() == old(self).flag(),
            final(self).region_len() == old(self).region_len(),
    ;

    /// The number of bytes the ring has room for.
    fn capacity(&self) -> (c: usize)
        requires
            self.ring_wf(),
        ensures
            c == self.data().len(),
    {
        proof {
            self.lemma_ring_layout();
        }
        self.get_len() - META_AREA
    }

    /// The number of bytes written and not yet read.
    fn num_bytes_stored(&self) -> (n: usize)
        requires
            self.ring_wf(),
        ensures
            n == stored_len(self.data().len() as int, self.head() as int, self.tail() as int),
            n == ring_contents(self.data(), self.head() as int, self.tail() as int).len(),
    {
        proof {
            self.lemma_ring_layout();
        }
        let head = self.read_head_volatile();
        let tail = self.read_tail_volatile();
        if tail >= head {
            tail - head
        } else {
            self.capacity() - (head - tail)
        }
    }

    /// The number of bytes the ring could still take, the slot kept empty included.
    fn num_bytes_free(&self) -> (n: usize)
        requires
            self.ring_wf(),
        ensures
            n == self.data().len() - stored_len(
                self.data().len() as int,
                self.head() as int,
                self.tail() as int,
            ),
    {
        proof {
            self.lemma_ring_layout();
        }
        self.capacity() - self.num_bytes_stored()
    }

    /// Whether nothing is stored.
    fn is_empty(&self) -> (b: bool)
        requires
            self.ring_wf(),
        ensures
            b == (self.head() == self.tail()),
            b == (ring_contents(self.data(), self.head() as int, self.tail() as int).len() == 0),
    {
        proof {
            self.lemma_ring_layout();
        }
        self.read_head_volatile() == self.read_tail_volatile()
    }

    /// Whether the ring cannot take another byte.
    fn is_full(&self) -> (b: bool)
        requires
            self.ring_wf(),
        ensures
            b == (stored_len(self.data().len() as int, self.head() as int, self.tail() as int)
                >= self.data().len() - 1),
    {
        proof {
            self.lemma_ring_layout();
        }
        self.num_bytes_stored() >= self.capacity() - 1
    }

    /// The bytes from position `cur_head` up to `max_len` of them, as far
    /// as they lie in one piece before the producer's position or the end of
    /// the ring.
    fn contiguous_read_slice_from(&self, cur_head: usize, max_len: usize) -> (s: &[u8])
        requires
            self.ring_wf(),
            cur_head < self.data().len(),
        ensures
            s@.len() == min(
                contiguous_read_len(self.data().len() as int, cur_head as int, self.tail() as int),
                max_len as int,
            ),
            s@ == self.data().subrange(cur_head as int, cur_head + s@.len()),
    {
        proof {
            self.lemma_ring_layout();
        }
        let cur_tail = self.read_tail_volatile();
        let contiguous_len = if cur_tail >= cur_head {
            cur_tail - cur_head
        } else {
            self.capacity() - cur_head
        };
        let len = if contiguous_len <= max_len {
            contiguous_len
        } else {
            max_len
        };
        self.data_slice(cur_head, cur_head + len)
    }

    /// How many bytes can be written from position `cur_tail` on, up to
    /// `max_len`, as far as they lie in one piece before the end of the ring
    /// and leave the slot before the consumer's position free.
    fn contiguous_write_len_from(&self, cur_tail: usize, max_len: usize) -> (n: usize)
        requires
            self.ring_wf(),
            cur_tail < self.data().len(),
        ensures
            n == min(
                contiguous_write_len(self.data().len() as int, self.head() as int, cur_tail as int),
                max_len as int,
            ),
            cur_tail + n <= self.data().len(),
            n > 0 ==> (cur_tail + n) % (self.data().len() as int) != self.head(),
    {
        proof {
            self.lemma_ring_layout();
        }
        let mut cur_head = self.read_head_volatile();
        if cur_head == 0 {
            cur_head = self.capacity();
        }
        let contiguous_len = if cur_tail >= cur_head {
            self.capacity() - cur_tail
        } else {
            cur_head - cur_tail - 1
        };
        let n = if contiguous_len <= max_len {
            contiguous_len
        } else {
            max_len
        };
        proof {
            lemma_advance(cur_tail as int, n as int, self.data().len() as int);
        }
        n
    }
}

/// The position that follows `pos + n` in a ring of `cap` bytes, where
/// `pos + n` does not pass the end.
proof fn lemma_advance(pos: int, n: int, cap: int)
    requires
        0 <= pos,
        0 <= n,
        pos + n <= cap,
        cap > 0,
    ensures
        pos + n < cap ==> (pos + n) % cap == pos + n,
        pos + n == cap ==> (pos + n) % cap == 0,
{
    if pos + n < cap {
        lemma_small_mod((pos + n) as nat, cap as nat);
    } else {
        lemma_mod_self_0(cap);
    }
}

/// Writing `chunk` where the producer may write appends it to the ring's
/// contents once the tail moves past it.
pub proof fn lemma_write_step(data: Seq<u8>, data2: Seq<u8>, chunk: Seq<u8>, head: int, tail: int)
    requires
        data.len() >= 1,
        0 <= head < data.len(),
        0 <= tail < data.len(),
        chunk.len() <= contiguous_write_len(data.len() as int, head, tail),
        data2.len() == data.len(),
        data2.subrange(tail, tail + chunk.len()) == chunk,
        forall|i: int|
            0 <= i < data.len() && !(tail <= i < tail + chunk.len()) ==> #[trigger] data2[i] == data[i],
    ensures
        ring_contents(data2, head, (tail + chunk.len()) % (data.len() as int)) == ring_contents(
            data,
            head,
            tail,
        ) + chunk,
{
    let cap = data.len() as int;
    let n = chunk.len() as int;
    let t2 = tail + n;
    lemma_advance(tail, n, cap);
    if head == 0 {
        assert(data2.subrange(0, tail) =~= data.subrange(0, tail));
        assert(data2.subrange(0, t2) =~= data2.subrange(0, tail) + data2.subrange(tail, t2));
    } else if tail >= head {
        assert(data2.subrange(head, tail) =~= data.subrange(head, tail));
        if t2 < cap {
            assert(data2.subrange(head, t2) =~= data2.subrange(head, tail) + data2.subrange(tail, t2));
        } else {
            assert(data2.subrange(head, cap) =~= data2.subrange(head, tail) + data2.subrange(tail, t2));
            assert(data2.subrange(0, 0) =~= Seq::<u8>::empty());
            assert(ring_contents(data2, head, 0) =~= data2.subrange(head, cap));
        }
    } else {
        assert(data2.subrange(head, cap) =~= data.subrange(head, cap));
        assert(data2.subrange(0, tail) =~= data.subrange(0, tail));
        assert(data2.subrange(0, t2) =~= data2.subrange(0, tail) + data2.subrange(tail, t2));
        assert(ring_contents(data2, head, t2) =~= ring_contents(data, head, tail) + chunk);
    }
}

/// Reading `n` bytes from the head, where they lie in one piece, gives the
/// first `n` bytes of the ring's contents and leaves the rest once the head
/// moves past them.
pub proof fn lemma_read_step(data: Seq<u8>, head: int, tail: int, n: int)
    requires
        data.len() >= 1,
        0 <= head < data.len(),
        0 <= tail < data.len(),
        0 <= n <= contiguous_read_len(data.len() as int, head, tail),
    ensures
        data.subrange(head, head + n) == ring_contents(data, head, tail).take(n),
        ring_contents(data, (head + n) % (data.len() as int), tail) == ring_contents(
            data,
            head,
            tail,
        ).skip(n),
{
    let cap = data.len() as int;
    let h2 = head + n;
    lemma_advance(head, n, cap);
    let r = ring_contents(data, head, tail);
    if tail >= head {
        assert(data.subrange(head, h2) =~= r.take(n));
        assert(data.subrange(h2, tail) =~= r.skip(n));
    } else {
        assert(data.subrange(head, h2) =~= r.take(n));
        if h2 < cap {
            assert(ring_contents(data, h2, tail) =~= r.skip(n));
        } else {
            assert(ring_contents(data, 0, tail) =~= r.skip(n));
        }
    }
}

/// The ring's contents and their count agree.
pub proof fn lemma_stored_len(data: Seq<u8>, head: int, tail: int)
    requires
        0 <= head < data.len(),
        0 <= tail < data.len(),
    ensures
        ring_contents(data, head, tail).len() == stored_len(data.len() as int, head, tail),
        stored_len(data.len() as int, head, tail) < data.len(),
{
}

/// What a ring holds: the bytes written and not yet read, oldest first.
pub open spec fn ring_view<T: RingBufferManager + ?Sized>(t: &T) -> Seq<u8> {
    ring_contents(t.data(), t.head() as int, t.tail() as int)
}

/// A ring buffer that a producer and a consumer use as a byte channel.
pub trait CommChannelInner: RingBufferManager {
    /// Whether `flush_out` can return on this channel.
    spec fn flush_ready(&self) -> bool;

    /// Waits until the consumer has made room for at least one byte.
    fn flush_out(&mut self) -> (r: Result<(), CommChannelError>)
        requires
            old(self).ring_wf(),
            old(self).flush_ready(),
        ensures
            r is Ok ==> {
                &&& final(self).ring_wf()
                &&& stored_len(final(self).data().len() as int, final(self).head() as int, final(self).tail() as int)
                    < final(self).data().len() - 1
                &&& final(self).tail() == old(self).tail()
                &&& final(self).flag() == old(self).flag()
                &&& final(self).region_len() == old(self).region_len()
            },
    ;

    /// Appends all of `src`'s unread bytes to the ring.
    fn put_from<R: MemRead>(&mut self, src: &mut R) -> (r: Result<(), CommChannelError>)
        requires
            old(self).ring_wf(),
            ring_view(old(self)).len() + old(src).unread().len() < old(self).data().len(),
        ensures
            r is Ok,
            final(self).ring_wf(),
            ring_view(final(self)) == ring_view(old(self)) + old(src).unread(),
            final(src).unread() == Seq::<u8>::empty(),
            final(self).head() == old(self).head(),
            final(self).flag() == old(self).flag(),
            final(self).region_len() == old(self).region_len(),
    {
        proof {
            self.lemma_ring_layout();
        }
        let ghost start = ring_view(self);
        let ghost input = src.unread();
        let mut len = src.remaining();
        while len > 0
            invariant
                self.ring_wf(),
                len == src.unread().len(),
                input.len() >= len,
                ring_view(self) == start + input.take(input.len() - len),
                src.unread() == input.skip(input.len() - len),
                ring_view(self).len() + len < self.data().len(),
                self.data().len() == old(self).data().len(),
                self.head() == old(self).head(),
                self.flag() == old(self).flag(),
                self.region_len() == old(self).region_len(),
            decreases len,
        {
            proof {
                self.lemma_ring_layout();
                lemma_stored_len(self.data(), self.head() as int, self.tail() as int);
            }
            let read_tail = self.read_tail_volatile();
            if self.is_full() {
                self.flush_out()?;
            }
            let current = self.contiguous_write_len_from(read_tail, len);
            let mut chunk = vec![0u8; current];
            src.read(chunk.as_mut_slice());
            let ghost before = self.data();
            let ghost head = self.head() as int;
            self.write_data(read_tail, chunk.as_slice());
            proof {
                lemma_write_step(before, self.data(), chunk@, head, read_tail as int);
            }
            let cap = self.capacity();
            self.write_tail_volatile((read_tail + current) % cap);
            proof {
                let done = input.len() - len;
                assert(input.take(done + current) =~= input.take(done) + chunk@);
                assert(input.skip(done + current) =~= input.skip(done).skip(current as int));
            }
            len = len - current;
        }
        proof {
            assert(input.take(input.len() as int) =~= input);
        }
        Ok(())
    }

    /// Moves as many stored bytes as `dst` has room for, and no more than
    /// are stored, into `dst`; returns how many moved.
    fn try_get_into<W: MemWrite>(&mut self, dst: &mut W) -> (r: Result<usize, CommChannelError>)
        requires
            old(self).ring_wf(),
        ensures
            final(self).ring_wf(),
            r matches Ok(n) && {
                &&& n == min(ring_view(old(self)).len() as int, old(dst).room() as int)
                &&& final(dst).written() == old(dst).written() + ring_view(old(self)).take(n as int)
                &&& final(dst).room() == old(dst).room() - n
                &&& ring_view(final(self)) == ring_view(old(self)).skip(n as int)
            },
            final(self).tail() == old(self).tail(),
            final(self).data() == old(self).data(),
            final(self).flag() == old(self).flag(),
            final(self).region_len() == old(self).region_len(),
    {
        proof {
            self.lemma_ring_layout();
        }
        let ghost start = ring_view(self);
        let ghost out = dst.written();
        let ghost room = dst.room();
        let mut len = dst.remaining();
        let mut recv: usize = 0;
        while len > 0
            invariant
                self.ring_wf(),
                len == dst.room(),
                recv + len == room,
                room == old(dst).room(),
                out == old(dst).written(),
                start == ring_view(old(self)),
                room <= usize::MAX,
                recv <= start.len(),
                ring_view(self) == start.skip(recv as int),
                dst.written() == out + start.take(recv as int),
                self.tail() == old(self).tail(),
                self.data() == old(self).data(),
                self.flag() == old(self).flag(),
                self.region_len() == old(self).region_len(),
            decreases len,
        {
            proof {
                self.lemma_ring_layout();
                lemma_stored_len(self.data(), self.head() as int, self.tail() as int);
            }
            if self.is_empty() {
                assert(start.skip(recv as int).len() == 0);
                return Ok(recv);
            }
            let read_head = self.read_head_volatile();
            let read_slice = self.contiguous_read_slice_from(read_head, len);
            let current = read_slice.len();
            proof {
                lemma_read_step(self.data(), read_head as int, self.tail() as int, current as int);
                assert(start.take(recv + current) =~= start.take(recv as int) + start.skip(recv as int).take(current as int));
                assert(start.skip(recv + current) =~= start.skip(recv as int).skip(current as int));
            }
            dst.write(read_slice);
            let cap = self.capacity();
            self.write_head_volatile((read_head + current) % cap);
            recv = recv + current;
            len = len - current;
        }
        Ok(recv)
    }

    /// Moves exactly as many stored bytes as `dst` has room for into `dst`;
    /// where nothing is stored and the producer side is switched off, fails
    /// with `ShmChannelLocked`, taking nothing.
    ///
    /// Nothing else fills a ring here while this runs, so it is called only
    /// where it returns: with all the bytes stored already, or with none
    /// stored and the producer switched off. On any other input a reader
    /// would wait for a producer forever, or stop on an assertion after a
    /// partial read.
    fn get_into<W: MemWrite>(&mut self, dst: &mut W) -> (r: Result<(), CommChannelError>)
        requires
            old(self).ring_wf(),
            old(dst).room() <= ring_view(old(self)).len() || (ring_view(old(self)).len() == 0
                && old(self).flag() == SHM_FLAG_WRITE_DISABLED & !SHM_FLAG_IN_USE),
        ensures
            r is Ok <==> old(dst).room() <= ring_view(old(self)).len(),
            r is Err ==> {
                &&& r == Err::<(), CommChannelError>(CommChannelError::ShmChannelLocked)
                &&& final(dst).written() == old(dst).written()
                &&& final(dst).room() == old(dst).room()
                &&& ring_view(final(self)) == ring_view(old(self))
            },
            r is Ok ==> {
                &&& final(dst).written() == old(dst).written() + ring_view(old(self)).take(old(dst).room() as int)
                &&& final(dst).room() == 0
                &&& ring_view(final(self)) == ring_view(old(self)).skip(old(dst).room() as int)
            },
            final(self).ring_wf(),
            final(self).tail() == old(self).tail(),
            final(self).data() == old(self).data(),
            final(self).flag() == old(self).flag(),
            final(self).region_len() == old(self).region_len(),
    {
        let total = dst.remaining();
        let mut cur_recv: usize = 0;
        while cur_recv != total
            invariant
                self.ring_wf(),
                cur_recv == 0 || cur_recv == total,
                cur_recv == 0 ==> (*self == *old(self) && *dst == *old(dst)),
                cur_recv == total ==> total <= ring_view(old(self)).len(),
                total == old(dst).room(),
                total <= ring_view(old(self)).len() || (ring_view(old(self)).len() == 0
                    && old(self).flag() == SHM_FLAG_WRITE_DISABLED & !SHM_FLAG_IN_USE),
                cur_recv == total ==> {
                    &&& dst.written() == old(dst).written() + ring_view(old(self)).take(total as int)
                    &&& dst.room() == 0
                    &&& ring_view(self) == ring_view(old(self)).skip(total as int)
                    &&& self.tail() == old(self).tail()
                    &&& self.data() == old(self).data()
                    &&& self.flag() == old(self).flag()
                    &&& self.region_len() == old(self).region_len()
                },
            decreases total - cur_recv,
        {
            let recv = match self.try_get_into(dst) {
                Ok(recv) => recv,
                Err(e) => {
                    return Err(e);
                },
            };
            if recv == 0 && self.read_flag_volatile() == SHM_FLAG_WRITE_DISABLED & !SHM_FLAG_IN_USE {
                return Err(CommChannelError::ShmChannelLocked);
            }
            cur_recv = cur_recv + recv;
        }
        Ok(())
    }
}

} // verus!
