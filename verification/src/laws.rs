use vstd::prelude::*;
use crate::local::LocalChannel;
use crate::ring::{RingBufferManager, ring_view, stored_len, lemma_stored_len};
use crate::transport::RecvChannel;
use crate::timer::{slot, Timer, MEASURE_MAX_NUM, ITER_NUM};
use crate::transport::{lemma_decode_encode_all, lemma_encode_all_len, slice_count};
use crate::wire::{Transportable, encode_all, decode_all};
use crate::restore::RestoreVec;
use crate::session::saved_after;

verus! {

/// Bytes come out of a channel in the order they went in: from an empty
/// channel `c0`, putting `src` gives `c1`, and reading `got` from `c1`
/// gives `c2`; what was read is the start of `src`, and the rest of `src`
/// is what is left.
pub proof fn lemma_fifo(c0: LocalChannel, c1: LocalChannel, c2: LocalChannel, src: Seq<u8>, got: Seq<u8>)
    requires
        c0.pending().len() == 0,
        c1.pending() == c0.pending() + src,
        got.len() <= src.len(),
        got == c1.pending().take(got.len() as int),
        c2.pending() == c1.pending().skip(got.len() as int),
    ensures
        got == src.take(got.len() as int),
        c2.pending() == src.skip(got.len() as int),
{
    assert(c1.pending() =~= src);
}

/// Two puts and two reads of matching sizes hand each read exactly its
/// put's bytes, whether or not the ring wrapped in between.
pub proof fn lemma_fifo_two_rounds(
    c0: LocalChannel,
    c1: LocalChannel,
    c2: LocalChannel,
    c3: LocalChannel,
    first: Seq<u8>,
    second: Seq<u8>,
    got1: Seq<u8>,
    got2: Seq<u8>,
)
    requires
        c0.pending().len() == 0,
        c1.pending() == c0.pending() + first,
        got1.len() == first.len(),
        got1 == c1.pending().take(got1.len() as int),
        c2.pending() == c1.pending().skip(got1.len() as int) + second,
        got2.len() == second.len(),
        got2 == c2.pending().take(got2.len() as int),
    ensures
        got1 == first,
        got2 == second,
{
    assert(c1.pending() =~= first);
    assert(got1 =~= first);
    assert(c1.pending().skip(got1.len() as int) =~= Seq::<u8>::empty());
    assert(c2.pending() =~= second);
    assert(got2 =~= second);
}

/// Once a channel that conserves its bytes is drained, everything it ever
/// accepted has been read, in order.
pub proof fn lemma_drained_channel_delivered_all(c: LocalChannel)
    requires
        c.conserves(),
        c.pending().len() == 0,
    ensures
        c.received() == c.history(),
{
    assert(c.received() + ring_view(&c) =~= c.received());
}

/// A ring never holds more than its capacity less one byte, and the bytes
/// it holds and the room it has add up to its capacity.
pub proof fn lemma_ring_occupancy(c: &LocalChannel)
    requires
        c.ring_wf(),
    ensures
        ring_view(c).len() < c.data().len(),
        stored_len(c.data().len() as int, c.head() as int, c.tail() as int) + (c.data().len()
            - stored_len(c.data().len() as int, c.head() as int, c.tail() as int)) == c.data().len(),
{
    c.lemma_ring_layout();
    lemma_stored_len(c.data(), c.head() as int, c.tail() as int);
}

/// Every state a ring channel is in, after any sequence of puts and gets
/// (each of which keeps it well formed), has both positions inside the
/// ring and holds `(tail + cap - head) % cap` bytes, at most `cap - 1`; it
/// is empty exactly when it holds none and full exactly when it holds
/// `cap - 1`.
pub proof fn lemma_ring_invariant(c: &LocalChannel)
    requires
        c.ring_wf(),
    ensures
        ({
            let cap = c.data().len() as int;
            let n = stored_len(cap, c.head() as int, c.tail() as int);
            &&& c.head() < cap
            &&& c.tail() < cap
            &&& n == (c.tail() + cap - c.head()) % cap
            &&& n <= cap - 1
            &&& (c.head() == c.tail()) == (n == 0)
            &&& ring_view(c).len() == n
        }),
{
    c.lemma_ring_layout();
    lemma_stored_len(c.data(), c.head() as int, c.tail() as int);
    let cap = c.data().len() as int;
    let x = c.tail() + cap - c.head();
    if c.tail() >= c.head() {
        vstd::arithmetic::div_mod::lemma_mod_add_multiples_vanish(c.tail() - c.head(), cap);
        vstd::arithmetic::div_mod::lemma_small_mod((c.tail() - c.head()) as nat, cap as nat);
    } else {
        vstd::arithmetic::div_mod::lemma_small_mod(x as nat, cap as nat);
    }
}

/// A value sent into an empty channel is the value received from it.
pub proof fn lemma_send_recv<T: Transportable>(before: Seq<u8>, after: Seq<u8>, v: T, r: T)
    requires
        before.len() == 0,
        after == before + v.encode(),
        r == T::decode(after.take(T::wire_size() as int)),
    ensures
        r == v,
{
    T::lemma_round_trip(v);
    assert(after.take(T::wire_size() as int) =~= v.encode());
}

/// An array sent into an empty channel, count first, is the array
/// received from it.
pub proof fn lemma_send_recv_slice<T: Transportable>(before: Seq<u8>, after: Seq<u8>, s: Seq<T>, r: Seq<T>)
    requires
        before.len() == 0,
        s.len() <= usize::MAX,
        after == before + (s.len() as usize).encode() + encode_all(s),
        r == decode_all::<T>(after.subrange(8, (8 + slice_count(after) * T::wire_size()) as int), slice_count(after)),
    ensures
        slice_count(after) == s.len(),
        r == s,
{
    let n = s.len() as usize;
    usize::lemma_round_trip(n);
    lemma_encode_all_len(s);
    assert(after.take(8) =~= n.encode());
    assert(slice_count(after) == s.len());
    assert(after.subrange(8, (8 + slice_count(after) * T::wire_size()) as int) =~= encode_all(s));
    lemma_decode_encode_all(s);
}

/// The readings of different rounds and points sit in different slots, so
/// recording one never changes another.
pub proof fn lemma_slots_distinct(c1: int, i1: int, c2: int, i2: int)
    requires
        0 <= c1 < ITER_NUM,
        0 <= c2 < ITER_NUM,
        0 <= i1 < MEASURE_MAX_NUM,
        0 <= i2 < MEASURE_MAX_NUM,
        c1 != c2 || i1 != i2,
    ensures
        slot(c1, i1) != slot(c2, i2),
        0 <= slot(c1, i1) < ITER_NUM * MEASURE_MAX_NUM,
{
    if c1 != c2 {
        if c1 < c2 {
            assert(c1 * MEASURE_MAX_NUM + MEASURE_MAX_NUM <= c2 * MEASURE_MAX_NUM) by (nonlinear_arith)
                requires c1 < c2;
        } else {
            assert(c2 * MEASURE_MAX_NUM + MEASURE_MAX_NUM <= c1 * MEASURE_MAX_NUM) by (nonlinear_arith)
                requires c2 < c1;
        }
    }
    assert(c1 * MEASURE_MAX_NUM + MEASURE_MAX_NUM <= ITER_NUM * MEASURE_MAX_NUM) by (nonlinear_arith)
        requires c1 < ITER_NUM;
    assert(0 <= c1 * MEASURE_MAX_NUM) by (nonlinear_arith)
        requires 0 <= c1;
}

/// A value saved into an empty buffer and replayed from its start comes
/// back as itself, and then the replay is used up, so the next read fails
/// with `RestoreEof`.
pub proof fn lemma_restore_round_trip<T: Transportable>(x: T, out: Seq<u8>, r: RestoreVec)
    requires
        out == Seq::<u8>::empty() + x.encode(),
        r.saved() == out,
        r.position() == 0,
    ensures
        T::wire_size() <= r.pending().len(),
        T::decode(r.pending().take(T::wire_size() as int)) == x,
        r.pending().skip(T::wire_size() as int).len() == 0,
        RestoreVec::short_read_error() == crate::error::CommChannelError::RestoreEof,
{
    T::lemma_round_trip(x);
    assert(r.pending() =~= x.encode());
    assert(r.pending().take(T::wire_size() as int) =~= x.encode());
}

/// A value that a server session received and saved is received again,
/// the same, when the saved bytes are replayed from where it was saved.
pub proof fn lemma_replay_saved_value<T: Transportable>(before: Vec<u8>, after: Option<Vec<u8>>, v: T, r: RestoreVec)
    requires
        saved_after(Some(before), after, v.encode()),
        r.saved() == after.unwrap()@,
        r.position() == before@.len(),
    ensures
        T::wire_size() <= r.pending().len(),
        T::decode(r.pending().take(T::wire_size() as int)) == v,
        r.pending().skip(T::wire_size() as int).len() == 0,
{
    T::lemma_round_trip(v);
    assert(r.pending() =~= v.encode());
    assert(r.pending().take(T::wire_size() as int) =~= v.encode());
}

/// An array that a server session received and saved, count first, is
/// received again, the same, when the saved bytes are replayed from where
/// it was saved.
pub proof fn lemma_replay_saved_slice<T: Transportable>(before: Vec<u8>, after: Option<Vec<u8>>, s: Seq<T>, r: RestoreVec)
    requires
        s.len() <= usize::MAX,
        saved_after(Some(before), after, (s.len() as usize).encode() + encode_all(s)),
        r.saved() == after.unwrap()@,
        r.position() == before@.len(),
    ensures
        8 <= r.pending().len(),
        slice_count(r.pending()) == s.len(),
        8 + s.len() * T::wire_size() == r.pending().len(),
        decode_all::<T>(
            r.pending().subrange(8, (8 + slice_count(r.pending()) * T::wire_size()) as int),
            slice_count(r.pending()),
        ) == s,
{
    lemma_encode_all_len(s);
    usize::lemma_round_trip(s.len() as usize);
    assert(r.pending() =~= Seq::<u8>::empty() + (s.len() as usize).encode() + encode_all(s));
    lemma_send_recv_slice::<T>(Seq::<u8>::empty(), r.pending(), s, decode_all::<T>(
        r.pending().subrange(8, (8 + slice_count(r.pending()) * T::wire_size()) as int),
        slice_count(r.pending()),
    ));
}

/// Recording readings `a` and then `b` for point `id` of round `cnt` makes
/// that point's time `b - a`, and leaves every other point's readings as
/// they were.
pub proof fn lemma_timed_point(t0: Timer, t1: Timer, t2: Timer, cnt: int, id: int, a: u64, b: u64, c: int, i: int)
    requires
        t0.wf(),
        0 <= cnt < ITER_NUM,
        0 <= id < MEASURE_MAX_NUM,
        0 <= c < ITER_NUM,
        0 <= i < MEASURE_MAX_NUM,
        c != cnt || i != id,
        t1.starts() == t0.starts().update(slot(cnt, id), a),
        t1.stops() == t0.stops(),
        t2.stops() == t1.stops().update(slot(cnt, id), b),
        t2.starts() == t1.starts(),
    ensures
        t2.stops()[slot(cnt, id)] - t2.starts()[slot(cnt, id)] == b - a,
        t2.starts()[slot(c, i)] == t0.starts()[slot(c, i)],
        t2.stops()[slot(c, i)] == t0.stops()[slot(c, i)],
{
    lemma_slots_distinct(cnt, id, c, i);
}

/// The chunks of `chunks`, one after the other.
pub open spec fn concat_all(chunks: Seq<Seq<u8>>) -> Seq<u8>
    decreases chunks.len(),
{
    if chunks.len() == 0 {
        Seq::empty()
    } else {
        concat_all(chunks.drop_last()) + chunks.last()
    }
}

proof fn lemma_saved_after_chain(saves: Seq<Option<Vec<u8>>>, chunks: Seq<Seq<u8>>)
    requires
        saves.len() == chunks.len() + 1,
        forall|i: int| 0 <= i < chunks.len() ==> saved_after(saves[i], #[trigger] saves[i + 1], chunks[i]),
    ensures
        saved_after(saves[0], saves.last(), concat_all(chunks)),
    decreases chunks.len(),
{
    if chunks.len() == 0 {
        match saves[0] {
            Some(b) => assert(b@ + concat_all(chunks) =~= b@),
            None => {},
        }
    } else {
        let n = chunks.len() - 1;
        let head = saves.drop_last();
        assert forall|i: int| 0 <= i < chunks.drop_last().len() implies saved_after(
            head[i],
            #[trigger] head[i + 1],
            chunks.drop_last()[i],
        ) by {
            assert(saved_after(saves[i], saves[i + 1], chunks[i]));
        }
        lemma_saved_after_chain(head, chunks.drop_last());
        assert(saved_after(saves[n], saves[n + 1], chunks[n]));
        match saves[0] {
            Some(b) => {
                let c = saves[n + 1].unwrap();
                assert(c@ =~= b@ + concat_all(chunks));
            },
            None => {},
        }
    }
}

/// Over a whole server session, what `finish` gives back is the procedure
/// id's bytes followed by what each receive recorded, in the order of the
/// receives (`saves[i]` is the session's save before receive `i`, and
/// `chunks[i]` what that receive states it appends: a value's bytes, or an
/// array's count and values); a session begun without saving gives back
/// nothing.
pub proof fn lemma_session_saves_in_order(
    saves: Seq<Option<Vec<u8>>>,
    chunks: Seq<Seq<u8>>,
    proc_id: i32,
    save: bool,
)
    requires
        saves.len() == chunks.len() + 1,
        save ==> (saves[0] matches Some(v) && v@ == proc_id.encode()),
        !save ==> saves[0] is None,
        forall|i: int| 0 <= i < chunks.len() ==> saved_after(saves[i], #[trigger] saves[i + 1], chunks[i]),
    ensures
        save ==> (saves.last() matches Some(v) && v@ == proc_id.encode() + concat_all(chunks)),
        !save ==> saves.last() is None,
{
    lemma_saved_after_chain(saves, chunks);
}

} // verus!
