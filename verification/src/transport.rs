use vstd::prelude::*;
use vstd::slice::slice_subrange;
use crate::error::CommChannelError;
use crate::wire::{Transportable, encode_all, decode_all};

verus! {

/// The bytes of `s` laid end to end have `s.len()` times the element's size.
pub proof fn lemma_encode_all_len<T: Transportable>(s: Seq<T>)
    ensures
        encode_all(s).len() == s.len() * T::wire_size(),
    decreases s.len(),
{
    if s.len() > 0 {
        lemma_encode_all_len(s.drop_last());
        T::lemma_round_trip(s.last());
        assert(s.len() * T::wire_size() == (s.len() - 1) * T::wire_size() + T::wire_size())
            by (nonlinear_arith);
    }
}

/// Encoding one more element appends its bytes.
pub proof fn lemma_encode_all_push<T: Transportable>(s: Seq<T>, i: int)
    requires
        0 <= i < s.len(),
    ensures
        encode_all(s.take(i + 1)) == encode_all(s.take(i)) + s[i].encode(),
{
    assert(s.take(i + 1).drop_last() =~= s.take(i));
}

/// The `i`-th decoded value comes from the `i`-th run of bytes.
pub proof fn lemma_decode_all_index<T: Transportable>(bytes: Seq<u8>, n: nat, i: int)
    requires
        0 <= i < n,
    ensures
        decode_all::<T>(bytes, n).len() == n,
        decode_all::<T>(bytes, n)[i] == T::decode(
            bytes.subrange(i * T::wire_size(), (i + 1) * T::wire_size()),
        ),
    decreases n,
{
    lemma_decode_all_len::<T>(bytes, n);
    if i < n - 1 {
        lemma_decode_all_index::<T>(bytes, (n - 1) as nat, i);
    }
}

/// Decoding `n` runs gives `n` values.
pub proof fn lemma_decode_all_len<T: Transportable>(bytes: Seq<u8>, n: nat)
    ensures
        decode_all::<T>(bytes, n).len() == n,
    decreases n,
{
    if n > 0 {
        lemma_decode_all_len::<T>(bytes, (n - 1) as nat);
    }
}

/// Decoding the bytes of encoded values gives the values back.
pub proof fn lemma_decode_encode_all<T: Transportable>(s: Seq<T>)
    ensures
        decode_all::<T>(encode_all(s), s.len()) == s,
    decreases s.len(),
{
    let k = T::wire_size();
    lemma_decode_all_len::<T>(encode_all(s), s.len());
    if s.len() > 0 {
        let init = s.drop_last();
        lemma_decode_encode_all(init);
        lemma_encode_all_len(init);
        T::lemma_round_trip(s.last());
        let e = encode_all(s);
        assert(init.len() * k + k == s.len() * k) by (nonlinear_arith)
            requires init.len() == s.len() - 1;
        assert(e.subrange((init.len() * k) as int, (s.len() * k) as int) =~= s.last().encode());
        assert forall|j: int| 0 <= j < init.len() implies
            decode_all::<T>(e, s.len())[j] == s[j] by {
            lemma_decode_all_index::<T>(e, s.len(), j);
            lemma_decode_all_index::<T>(encode_all(init), init.len(), j);
            assert(j * k + k <= init.len() * k) by (nonlinear_arith)
                requires j < init.len(), j >= 0;
            assert(0 <= j * k) by (nonlinear_arith) requires j >= 0;
            assert((j + 1) * k == j * k + k) by (nonlinear_arith);
            assert(e.subrange(j * k, (j + 1) * k) =~= encode_all(init).subrange(j * k, (j + 1) * k));
        }
        assert(decode_all::<T>(e, s.len()) =~= s);
    }
}

/// Bytes encode as themselves.
pub proof fn lemma_bytes_encode_all(s: Seq<u8>)
    ensures
        encode_all(s) == s,
    decreases s.len(),
{
    if s.len() > 0 {
        lemma_bytes_encode_all(s.drop_last());
        assert(s.drop_last() + seq![s.last()] =~= s);
    }
}

/// Bytes decode as themselves.
pub proof fn lemma_bytes_decode_all(b: Seq<u8>)
    ensures
        decode_all::<u8>(b, b.len()) == b,
{
    lemma_decode_all_len::<u8>(b, b.len());
    assert forall|i: int| 0 <= i < b.len() implies decode_all::<u8>(b, b.len())[i] == b[i] by {
        lemma_decode_all_index::<u8>(b, b.len(), i);
    }
    assert(decode_all::<u8>(b, b.len()) =~= b);
}

/// The sending end of a channel.
pub trait SendChannel: Sized {
    /// Every byte the channel has accepted so far, in order.
    spec fn sent(&self) -> Seq<u8>;

    /// Whether the channel takes `n` more bytes without waiting for the
    /// other side.
    spec fn can_put(&self, n: nat) -> bool;

    /// Whether `flush` returns without waiting for the other side.
    spec fn can_flush(&self) -> bool;

    /// Room for more bytes is room for fewer.
    proof fn lemma_can_put_fewer(&self, a: nat, b: nat)
        requires
            a <= b,
            self.can_put(b),
        ensures
            self.can_put(a),
    ;

    /// Pushes what was put towards the other side.
    fn flush(&mut self) -> (r: Result<(), CommChannelError>)
        requires
            old(self).can_flush(),
        ensures
            r is Ok,
            final(self).sent() == old(self).sent(),
            forall|m: nat| old(self).can_put(m) ==> #[trigger] final(self).can_put(m),
    ;

    /// Sends the bytes of `src`.
    fn put_bytes(&mut self, src: &[u8]) -> (r: Result<(), CommChannelError>)
        requires
            old(self).can_put(src@.len()),
        ensures
            r is Ok,
            final(self).sent() == old(self).sent() + src@,
            forall|m: nat| old(self).can_put(src@.len() + m) ==> #[trigger] final(self).can_put(m),
    ;

    /// Sends the bytes of one value.
    fn send<T: Transportable>(&mut self, src: &T) -> (r: Result<(), CommChannelError>)
        requires
            old(self).can_put(T::wire_size()),
        ensures
            r is Ok,
            final(self).sent() == old(self).sent() + src.encode(),
            forall|m: nat| old(self).can_put(T::wire_size() + m) ==> #[trigger] final(self).can_put(m),
    {
        let bytes = src.to_bytes();
        proof {
            T::lemma_round_trip(*src);
        }
        self.put_bytes(bytes.as_slice())
    }

    /// Sends the number of values in `src`, then the bytes of each value.
    fn send_slice<T: Transportable>(&mut self, src: &[T]) -> (r: Result<(), CommChannelError>)
        requires
            old(self).can_put(8 + src@.len() * T::wire_size()),
        ensures
            r is Ok,
            final(self).sent() == old(self).sent() + (src@.len() as usize).encode() + encode_all(src@),
            forall|m: nat|
                old(self).can_put(8 + src@.len() * T::wire_size() + m)
                    ==> #[trigger] final(self).can_put(m),
    {
        let n = src.len();
        let mut bytes: Vec<u8> = Vec::new();
        let mut i: usize = 0;
        while i < n
            invariant
                n == src@.len(),
                i <= n,
                bytes@ == encode_all(src@.take(i as int)),
            decreases n - i,
        {
            let mut b = src[i].to_bytes();
            proof {
                lemma_encode_all_push(src@, i as int);
            }
            bytes.append(&mut b);
            i = i + 1;
        }
        proof {
            assert(src@.take(n as int) =~= src@);
            lemma_encode_all_len(src@);
            usize::lemma_round_trip(n);
            self.lemma_can_put_fewer(8, 8 + src@.len() * T::wire_size());
            assert(old(self).can_put(8 + (src@.len() * T::wire_size() + 0)));
        }
        match self.send(&n) {
            Ok(()) => {},
            Err(e) => {
                return Err(e);
            },
        }
        self.put_bytes(bytes.as_slice())
    }
}

/// The receiving end of a channel.
pub trait RecvChannel: Sized {
    /// The bytes that can be read now, oldest first.
    spec fn pending(&self) -> Seq<u8>;

    /// Whether a read of `n` bytes returns without waiting for the other
    /// side.
    spec fn can_get(&self, n: nat) -> bool;

    /// A read that does not wait for more bytes does not wait for fewer.
    proof fn lemma_can_get_fewer(&self, a: nat, b: nat)
        requires
            a <= b,
            self.can_get(b),
        ensures
            self.can_get(a),
    ;

    /// The error that a read fails with where fewer bytes are left than it
    /// asks for.
    spec fn short_read_error() -> CommChannelError;

    /// How many bytes the sender's timestamp takes after each message on
    /// this channel: a channel that emulates a network's delay carries one,
    /// a channel that does not carries none.
    spec fn timestamp_len(&self) -> nat;

    /// How many bytes the sender's timestamp takes on this channel.
    fn timestamp_size(&self) -> (n: usize)
        ensures
            n == self.timestamp_len(),
    ;

    /// Receives the timestamp that the sender put after its message; fails,
    /// taking nothing, where it is not all there.
    fn recv_ts(&mut self) -> (r: Result<(), CommChannelError>)
        requires
            old(self).can_get(old(self).timestamp_len()),
        ensures
            r matches Err(e) ==> e == Self::short_read_error(),
            r is Ok <==> old(self).timestamp_len() <= old(self).pending().len(),
            r is Ok ==> final(self).pending() == old(self).pending().skip(old(self).timestamp_len() as int),
            r is Err ==> final(self).pending() == old(self).pending(),
    {
        let n = self.timestamp_size();
        let mut buf = vec![0u8; n];
        self.get_bytes(buf.as_mut_slice())
    }

    /// Fills `dst` with the next `dst.len()` bytes; fails, taking nothing,
    /// where fewer are there.
    fn get_bytes(&mut self, dst: &mut [u8]) -> (r: Result<(), CommChannelError>)
        requires
            old(self).can_get(old(dst)@.len()),
        ensures
            r matches Err(e) ==> e == Self::short_read_error(),
            r is Ok <==> old(dst)@.len() <= old(self).pending().len(),
            r is Ok ==> {
                &&& final(dst)@ == old(self).pending().take(old(dst)@.len() as int)
                &&& final(self).pending() == old(self).pending().skip(old(dst)@.len() as int)
                &&& forall|m: nat|
                    old(self).can_get(old(dst)@.len() + m) ==> #[trigger] final(self).can_get(m)
            },
            r is Err ==> {
                &&& final(self).pending() == old(self).pending()
                &&& forall|m: nat| old(self).can_get(m) ==> #[trigger] final(self).can_get(m)
            },
    ;

    /// Receives one value.
    fn recv<T: Transportable>(&mut self) -> (r: Result<T, CommChannelError>)
        requires
            old(self).can_get(T::wire_size()),
        ensures
            r matches Err(e) ==> e == Self::short_read_error(),
            r is Ok <==> T::wire_size() <= old(self).pending().len(),
            r matches Ok(v) ==> {
                &&& v == T::decode(old(self).pending().take(T::wire_size() as int))
                &&& final(self).pending() == old(self).pending().skip(T::wire_size() as int)
                &&& forall|m: nat|
                    old(self).can_get(T::wire_size() + m) ==> #[trigger] final(self).can_get(m)
            },
            r is Err ==> {
                &&& final(self).pending() == old(self).pending()
                &&& forall|m: nat| old(self).can_get(m) ==> #[trigger] final(self).can_get(m)
            },
    {
        let mut buf = vec![0u8; T::size()];
        match self.get_bytes(buf.as_mut_slice()) {
            Ok(()) => {},
            Err(e) => {
                return Err(e);
            },
        }
        Ok(T::from_bytes(buf.as_slice()))
    }

    /// Receives one value into `dst`; leaves `dst` as it was on failure.
    fn recv_to<T: Transportable>(&mut self, dst: &mut T) -> (r: Result<(), CommChannelError>)
        requires
            old(self).can_get(T::wire_size()),
        ensures
            r matches Err(e) ==> e == Self::short_read_error(),
            r is Ok <==> T::wire_size() <= old(self).pending().len(),
            r is Ok ==> {
                &&& *final(dst) == T::decode(old(self).pending().take(T::wire_size() as int))
                &&& final(self).pending() == old(self).pending().skip(T::wire_size() as int)
                &&& forall|m: nat|
                    old(self).can_get(T::wire_size() + m) ==> #[trigger] final(self).can_get(m)
            },
            r is Err ==> {
                &&& *final(dst) == *old(dst)
                &&& final(self).pending() == old(self).pending()
                &&& forall|m: nat| old(self).can_get(m) ==> #[trigger] final(self).can_get(m)
            },
    {
        match self.recv::<T>() {
            Ok(v) => {
                *dst = v;
                Ok(())
            },
            Err(e) => Err(e),
        }
    }

    /// Receives a count, then that many values.
    fn recv_slice<T: Transportable>(&mut self) -> (r: Result<Vec<T>, CommChannelError>)
        requires
            old(self).can_get(8),
            8 <= old(self).pending().len() ==> {
                let n = slice_count(old(self).pending());
                &&& n * T::wire_size() <= usize::MAX
                &&& old(self).can_get(8 + n * T::wire_size())
            },
        ensures
            r matches Err(e) ==> e == Self::short_read_error(),
            ({
                let p = old(self).pending();
                let n = slice_count(p);
                let k = T::wire_size();
                let end = (8 + n * k) as int;
                &&& r is Ok <==> (8 <= p.len() && 8 + n * k <= p.len())
                &&& r matches Ok(v) ==> {
                    &&& v@ == decode_all::<T>(p.subrange(8, end), n)
                    &&& final(self).pending() == p.skip(end)
                }
                &&& (r is Err && p.len() < 8) ==> final(self).pending() == p
                &&& (r is Err && p.len() >= 8) ==> final(self).pending() == p.skip(8)
            }),
    {
        let ghost p = self.pending();
        let len: usize = match self.recv::<usize>() {
            Ok(len) => len,
            Err(e) => {
                return Err(e);
            },
        };
        let k = T::size();
        proof {
            assert(len * k <= usize::MAX);
            assert(old(self).can_get(8 + (len * k) as nat));
        }
        let total = len * k;
        let mut buf = vec![0u8; total];
        match self.get_bytes(buf.as_mut_slice()) {
            Ok(()) => {},
            Err(e) => {
                return Err(e);
            },
        }
        proof {
            assert(p.skip(8).take(total as int) =~= p.subrange(8, 8 + total));
            assert(p.skip(8).skip(total as int) =~= p.skip(8 + total));
        }
        let out = decode_values::<T>(buf.as_slice(), len);
        Ok(out)
    }

    /// Receives a count, which must be `dst.len()`, then that many values
    /// into `dst`.
    fn recv_slice_to<T: Transportable>(&mut self, dst: &mut [T]) -> (r: Result<(), CommChannelError>)
        requires
            old(self).can_get(8),
            old(dst)@.len() * T::wire_size() <= usize::MAX,
            8 <= old(self).pending().len() ==> {
                &&& slice_count(old(self).pending()) == old(dst)@.len()
                &&& old(self).can_get(8 + old(dst)@.len() * T::wire_size())
            },
        ensures
            r matches Err(e) ==> e == Self::short_read_error(),
            ({
                let p = old(self).pending();
                let n = old(dst)@.len();
                let k = T::wire_size();
                let end = (8 + n * k) as int;
                &&& r is Ok <==> (8 <= p.len() && 8 + n * k <= p.len())
                &&& r is Ok ==> {
                    &&& final(dst)@ == decode_all::<T>(p.subrange(8, end), n)
                    &&& final(self).pending() == p.skip(end)
                }
                &&& r is Err ==> final(dst)@ == old(dst)@
                &&& (r is Err && p.len() < 8) ==> final(self).pending() == p
                &&& (r is Err && p.len() >= 8) ==> final(self).pending() == p.skip(8)
            }),
    {
        let ghost p = self.pending();
        let len: usize = match self.recv::<usize>() {
            Ok(len) => len,
            Err(e) => {
                return Err(e);
            },
        };
        let k = T::size();
        proof {
            assert(old(self).can_get(8 + (len * k) as nat));
        }
        let total = len * k;
        let mut buf = vec![0u8; total];
        match self.get_bytes(buf.as_mut_slice()) {
            Ok(()) => {},
            Err(e) => {
                return Err(e);
            },
        }
        proof {
            assert(p.skip(8).take(total as int) =~= p.subrange(8, 8 + total));
            assert(p.skip(8).skip(total as int) =~= p.skip(8 + total));
        }
        let values = decode_values::<T>(buf.as_slice(), len);
        let mut i: usize = 0;
        while i < len
            invariant
                len == dst@.len(),
                values@.len() == len,
                i <= len,
                forall|j: int| 0 <= j < i ==> dst@[j] == values@[j],
            decreases len - i,
        {
            dst[i] = values[i];
            i = i + 1;
        }
        assert(dst@ =~= values@);
        Ok(())
    }
}

/// The count that a slice on the wire starts with.
pub open spec fn slice_count(p: Seq<u8>) -> nat {
    usize::decode(p.take(8)) as nat
}

/// Decodes `n` values from `bytes`, which hold exactly their bytes.
pub fn decode_values<T: Transportable>(bytes: &[u8], n: usize) -> (v: Vec<T>)
    requires
        bytes@.len() == n * T::wire_size(),
    ensures
        v@ == decode_all::<T>(bytes@, n as nat),
        v@.len() == n,
{
    proof {
        lemma_decode_all_len::<T>(bytes@, n as nat);
    }
    let k = T::size();
    assert(bytes@.len() == bytes.len());
    let mut out: Vec<T> = Vec::new();
    let mut i: usize = 0;
    while i < n
        invariant
            k == T::wire_size(),
            bytes@.len() == n * k,
            n * k <= usize::MAX,
            i <= n,
            out@ == decode_all::<T>(bytes@, i as nat),
        decreases n - i,
    {
        proof {
            assert(i * k + k <= n * k) by (nonlinear_arith)
                requires i < n;
            assert((i + 1) * k == i * k + k) by (nonlinear_arith);
            assert(0 <= i * k) by (nonlinear_arith);
        }
        let start = i * k;
        let piece = slice_subrange(bytes, start, start + k);
        out.push(T::from_bytes(piece));
        i = i + 1;
    }
    out
}

/// Appends the bytes of `data` to `output`.
pub fn save<T: Transportable>(data: &T, output: &mut Vec<u8>)
    ensures
        final(output)@ == old(output)@ + data.encode(),
{
    let mut bytes = data.to_bytes();
    output.append(&mut bytes);
}

/// Appends the number of values in `data`, then the bytes of each, to `output`.
pub fn save_slice<T: Transportable>(data: &[T], output: &mut Vec<u8>)
    ensures
        final(output)@ == old(output)@ + (data@.len() as usize).encode() + encode_all(data@),
{
    let len = data.len();
    save(&len, output);
    let ghost mid = output@;
    let mut i: usize = 0;
    while i < len
        invariant
            len == data@.len(),
            i <= len,
            output@ == mid + encode_all(data@.take(i as int)),
        decreases len - i,
    {
        let mut b = data[i].to_bytes();
        proof {
            lemma_encode_all_push(data@, i as int);
        }
        output.append(&mut b);
        i = i + 1;
    }
    assert(data@.take(len as int) =~= data@);
}

} // verus!
