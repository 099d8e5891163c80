use vstd::prelude::*;
use crate::handle::{HandleCounter, next_handle};
use crate::transport::{
    RecvChannel, SendChannel, lemma_bytes_decode_all, lemma_bytes_encode_all, save, save_slice,
    slice_count,
};
use crate::wire::{Transportable, decode_all, encode_all};

verus! {

/// One call's worth of sending: the arguments of one intercepted call go
/// out on the channel, then the channel is flushed.
pub struct SendSession<C: SendChannel> {
    id: i32,
    channel: C,
    func: &'static str,
}

impl<C: SendChannel> SendSession<C> {
    /// The channel the session sends on.
    pub closed spec fn channel(&self) -> C {
        self.channel
    }

    /// The client's id.
    pub closed spec fn id(&self) -> i32 {
        self.id
    }

    /// The name of the call being forwarded.
    pub closed spec fn func(&self) -> Seq<char> {
        self.func@
    }

    /// Starts sending the call `func` for client `id` on `channel`.
    pub fn begin(id: i32, channel: C, func: &'static str) -> (s: Self)
        ensures
            s.id() == id,
            s.channel() == channel,
            s.func() == func@,
    {
        SendSession { id, channel, func }
    }

    /// Checks that the argument `name` is not a null pointer.
    pub fn check_not_null(&self, addr: usize, name: &str)
        requires
            addr != 0,
    {
    }

    /// Sends the value of the argument `name`.
    pub fn send<T: Transportable>(&mut self, data: &T, name: &str)
        requires
            old(self).channel().can_put(T::wire_size()),
        ensures
            final(self).channel().sent() == old(self).channel().sent() + data.encode(),
            forall|m: nat|
                old(self).channel().can_put(T::wire_size() + m)
                    ==> #[trigger] final(self).channel().can_put(m),
            final(self).id() == old(self).id(),
            final(self).func() == old(self).func(),
    {
        let r = self.channel.send(data);
        assert(r is Ok);
    }

    /// Sends the array argument `name`: its length, then its values.
    pub fn send_slice<T: Transportable>(&mut self, data: &[T], name: &str)
        requires
            old(self).channel().can_put(8 + data@.len() * T::wire_size()),
        ensures
            final(self).channel().sent() == old(self).channel().sent() + (data@.len() as usize).encode()
                + encode_all(data@),
            forall|m: nat|
                old(self).channel().can_put(8 + data@.len() * T::wire_size() + m)
                    ==> #[trigger] final(self).channel().can_put(m),
            final(self).id() == old(self).id(),
            final(self).func() == old(self).func(),
    {
        let r = self.channel.send_slice(data);
        assert(r is Ok);
    }

    /// Sends the C string argument `name`, given with its closing nul.
    pub fn send_cstr(&mut self, data: &[u8], name: &str)
        requires
            data@.len() > 0,
            data@.last() == 0,
            old(self).channel().can_put(8 + data@.len()),
        ensures
            final(self).channel().sent() == old(self).channel().sent() + (data@.len() as usize).encode()
                + encode_all(data@),
            forall|m: nat|
                old(self).channel().can_put(8 + data@.len() + m)
                    ==> #[trigger] final(self).channel().can_put(m),
            final(self).id() == old(self).id(),
            final(self).func() == old(self).func(),
    {
        self.send_slice(data, name);
    }

    /// Takes a fresh proxy handle for the object the call creates, sends
    /// it, and returns it for the caller to hand back in place of the
    /// object.
    pub fn send_handle(&mut self, counter: &mut HandleCounter, name: &str) -> (proxy: usize)
        requires
            old(self).channel().can_put(8),
        ensures
            proxy == old(counter).peek(),
            final(counter).peek() == old(counter).peek().wrapping_add(1),
            final(self).channel().sent() == old(self).channel().sent() + proxy.encode(),
            forall|m: nat|
                old(self).channel().can_put(8 + m) ==> #[trigger] final(self).channel().can_put(m),
            final(self).id() == old(self).id(),
            final(self).func() == old(self).func(),
    {
        let proxy = next_handle(counter);
        self.send(&proxy, name);
        proxy
    }

    /// Flushes the channel and ends the session, giving the channel back.
    pub fn finish(self) -> (c: C)
        requires
            self.channel().can_flush(),
        ensures
            c.sent() == self.channel().sent(),
            forall|m: nat| self.channel().can_put(m) ==> #[trigger] c.can_put(m),
    {
        let mut channel = self.channel;
        let r = channel.flush();
        assert(r is Ok);
        channel
    }
}

/// One call's worth of receiving: the results of a forwarded call, or on
/// the server the arguments of a call, come in from the channel.
///
/// Where `save` holds bytes, every value received is appended to them as
/// it was encoded, so that the call can be replayed later.
pub struct RecvSession<C: RecvChannel> {
    pub id: i32,
    pub channel: C,
    pub func: &'static str,
    pub save: Option<Vec<u8>>,
}

/// A C string: bytes ending in the only nul among them.
pub open spec fn is_c_string(b: Seq<u8>) -> bool {
    &&& b.len() > 0
    &&& b.last() == 0
    &&& forall|i: int| 0 <= i < b.len() - 1 ==> b[i] != 0
}

/// `after` is `before` with `more` appended, where `before` holds bytes;
/// both hold nothing otherwise.
pub open spec fn saved_after(before: Option<Vec<u8>>, after: Option<Vec<u8>>, more: Seq<u8>) -> bool {
    match before {
        None => after is None,
        Some(b) => (after matches Some(a) && a@ == b@ + more),
    }
}

impl<C: RecvChannel> RecvSession<C> {
    /// Starts receiving for the call `func` of client `id`, saving nothing.
    pub fn begin(id: i32, channel: C, func: &'static str) -> (s: Self)
        ensures
            s.id == id,
            s.channel == channel,
            s.func@ == func@,
            s.save is None,
    {
        RecvSession { id, channel, func, save: None }
    }

    /// Starts receiving the call `func` of client `id` on the server; where
    /// `save` is set, the received arguments are kept, after `proc_id`.
    pub fn begin_server(id: i32, channel: C, func: &'static str, save: bool, proc_id: i32) -> (s: Self)
        ensures
            s.id == id,
            s.channel == channel,
            s.func@ == func@,
            save ==> (s.save matches Some(v) && v@ == proc_id.encode()),
            !save ==> s.save is None,
    {
        let save = if save {
            Some(proc_id.to_bytes())
        } else {
            None
        };
        RecvSession { id, channel, func, save }
    }

    /// Checks that the argument `name` is not a null pointer.
    pub fn check_not_null(&self, addr: usize, name: &str)
        requires
            addr != 0,
    {
    }

    /// Receives a value into the output `data`; nothing is being saved.
    pub fn recv_mut<T: Transportable>(&mut self, data: &mut T, name: &str)
        requires
            old(self).save is None,
            old(self).channel.can_get(T::wire_size()),
            T::wire_size() <= old(self).channel.pending().len(),
        ensures
            *final(data) == T::decode(old(self).channel.pending().take(T::wire_size() as int)),
            final(self).channel.pending() == old(self).channel.pending().skip(T::wire_size() as int),
            forall|m: nat|
                old(self).channel.can_get(T::wire_size() + m) ==> #[trigger] final(self).channel.can_get(m),
            final(self).save is None,
            final(self).id == old(self).id,
            final(self).func == old(self).func,
    {
        let r = self.channel.recv_to(data);
        assert(r is Ok);
    }

    /// Receives an array into the output `data`, whose length the sender
    /// must have sent; nothing is being saved.
    pub fn recv_mut_slice<T: Transportable>(&mut self, data: &mut [T], name: &str)
        requires
            old(self).save is None,
            old(self).channel.can_get(8),
            old(data)@.len() * T::wire_size() <= usize::MAX,
            8 + old(data)@.len() * T::wire_size() <= old(self).channel.pending().len(),
            slice_count(old(self).channel.pending()) == old(data)@.len(),
            old(self).channel.can_get(8 + old(data)@.len() * T::wire_size()),
        ensures
            ({
                let p = old(self).channel.pending();
                let n = old(data)@.len();
                let end = (8 + n * T::wire_size()) as int;
                &&& final(data)@ == decode_all::<T>(p.subrange(8, end), n)
                &&& final(self).channel.pending() == p.skip(end)
            }),
            final(self).save is None,
            final(self).id == old(self).id,
            final(self).func == old(self).func,
    {
        let r = self.channel.recv_slice_to(data);
        assert(r is Ok);
    }

    /// Receives a value, saving it where the session saves.
    pub fn recv<T: Transportable>(&mut self, name: &str) -> (v: T)
        requires
            old(self).channel.can_get(T::wire_size()),
            T::wire_size() <= old(self).channel.pending().len(),
        ensures
            v == T::decode(old(self).channel.pending().take(T::wire_size() as int)),
            final(self).channel.pending() == old(self).channel.pending().skip(T::wire_size() as int),
            forall|m: nat|
                old(self).channel.can_get(T::wire_size() + m) ==> #[trigger] final(self).channel.can_get(m),
            saved_after(old(self).save, final(self).save, v.encode()),
            final(self).id == old(self).id,
            final(self).func == old(self).func,
    {
        let r = self.channel.recv::<T>();
        assert(r is Ok);
        let v = r.unwrap();
        match self.save.take() {
            Some(mut output) => {
                save(&v, &mut output);
                self.save = Some(output);
            },
            None => {},
        }
        v
    }

    /// Receives an array, saving it where the session saves.
    pub fn recv_slice<T: Transportable>(&mut self, name: &str) -> (v: Vec<T>)
        requires
            old(self).channel.can_get(8),
            8 <= old(self).channel.pending().len(),
            slice_count(old(self).channel.pending()) * T::wire_size() <= usize::MAX,
            8 + slice_count(old(self).channel.pending()) * T::wire_size()
                <= old(self).channel.pending().len(),
            old(self).channel.can_get(8 + slice_count(old(self).channel.pending()) * T::wire_size()),
        ensures
            ({
                let p = old(self).channel.pending();
                let n = slice_count(p);
                let end = (8 + n * T::wire_size()) as int;
                &&& v@ == decode_all::<T>(p.subrange(8, end), n)
                &&& final(self).channel.pending() == p.skip(end)
                &&& saved_after(old(self).save, final(self).save, (n as usize).encode() + encode_all(v@))
            }),
            final(self).id == old(self).id,
            final(self).func == old(self).func,
    {
        let r = self.channel.recv_slice::<T>();
        assert(r is Ok);
        let v = r.unwrap();
        proof {
            crate::transport::lemma_decode_all_len::<T>(
                old(self).channel.pending().subrange(
                    8,
                    (8 + slice_count(old(self).channel.pending()) * T::wire_size()) as int,
                ),
                slice_count(old(self).channel.pending()),
            );
        }
        match self.save.take() {
            Some(mut output) => {
                let ghost before = output@;
                save_slice(v.as_slice(), &mut output);
                assert(output@ =~= before + ((v@.len() as usize).encode() + encode_all(v@)));
                self.save = Some(output);
            },
            None => {},
        }
        v
    }

    /// Receives a C string, closing nul included, saving it where the
    /// session saves.
    pub fn recv_cstr(&mut self, name: &str) -> (v: Vec<u8>)
        requires
            old(self).channel.can_get(8),
            8 <= old(self).channel.pending().len(),
            8 + slice_count(old(self).channel.pending()) <= old(self).channel.pending().len(),
            old(self).channel.can_get(8 + slice_count(old(self).channel.pending())),
            is_c_string(
                old(self).channel.pending().subrange(8, (8 + slice_count(old(self).channel.pending())) as int),
            ),
        ensures
            ({
                let p = old(self).channel.pending();
                let n = slice_count(p);
                &&& v@ == p.subrange(8, (8 + n) as int)
                &&& final(self).channel.pending() == p.skip((8 + n) as int)
                &&& saved_after(old(self).save, final(self).save, (n as usize).encode() + v@)
            }),
            final(self).id == old(self).id,
            final(self).func == old(self).func,
    {
        let ghost p = self.channel.pending();
        proof {
            let n = slice_count(p);
            assert(n * u8::wire_size() == n);
        }
        let v = self.recv_slice::<u8>(name);
        proof {
            let n = slice_count(p);
            lemma_bytes_decode_all(p.subrange(8, (8 + n) as int));
            lemma_bytes_encode_all(v@);
        }
        v
    }

    /// Ends the session: receives the sender's timestamp, then gives back
    /// what was saved and the channel.
    pub fn finish(self) -> (r: (Option<Vec<u8>>, C))
        requires
            self.channel.can_get(self.channel.timestamp_len()),
            self.channel.timestamp_len() <= self.channel.pending().len(),
        ensures
            r.0 == self.save,
            r.1.pending() == self.channel.pending().skip(self.channel.timestamp_len() as int),
    {
        let mut channel = self.channel;
        let ts = channel.recv_ts();
        assert(ts is Ok);
        (self.save, channel)
    }
}

} // verus!
