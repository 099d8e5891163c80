use vstd::prelude::*;
use vstd::slice::slice_subrange;

verus! {

/// A source of bytes that is consumed from the front.
pub trait MemRead {
    /// The bytes that have not been read yet.
    spec fn unread(&self) -> Seq<u8>;

    /// Fills `dst` with the next `dst.len()` unread bytes and consumes them.
    fn read(&mut self, dst: &mut [u8])
        requires
            old(dst)@.len() <= old(self).unread().len(),
        ensures
            final(dst)@ == old(self).unread().take(old(dst)@.len() as int),
            final(self).unread() == old(self).unread().skip(old(dst)@.len() as int),
    ;

    /// How many bytes are left to read.
    fn remaining(&self) -> (n: usize)
        ensures
            n == self.unread().len(),
    ;
}

/// A sink of bytes that is filled from the front.
pub trait MemWrite {
    /// The bytes written so far.
    spec fn written(&self) -> Seq<u8>;

    /// How many more bytes the sink takes.
    spec fn room(&self) -> nat;

    /// Appends `src` to what was written.
    fn write(&mut self, src: &[u8])
        requires
            src@.len() <= old(self).room(),
        ensures
            final(self).written() == old(self).written() + src@,
            final(self).room() == old(self).room() - src@.len(),
    ;

    /// How many more bytes the sink takes.
    fn remaining(&self) -> (n: usize)
        ensures
            n == self.room(),
    ;
}

impl<'a> MemRead for &'a [u8] {
    open spec fn unread(&self) -> Seq<u8> {
        (*self)@
    }

    fn read(&mut self, dst: &mut [u8]) {
        let amount = dst.len();
        let mut i: usize = 0;
        while i < amount
            invariant
                amount == dst@.len(),
                amount == old(dst)@.len(),
                amount <= (*self)@.len(),
                i <= amount,
                *self == *old(self),
                forall|k: int| 0 <= k < i ==> dst@[k] == (*self)@[k],
            decreases amount - i,
        {
            dst[i] = self[i];
            i = i + 1;
        }
        assert(dst@ =~= old(self)@.take(amount as int));
        let rest = slice_subrange(*self, amount, self.len());
        *self = rest;
    }

    fn remaining(&self) -> (n: usize) {
        self.len()
    }
}

/// A fixed-size buffer that is filled from the front.
pub struct ByteWriter {
    buf: Vec<u8>,
    pos: usize,
}

impl ByteWriter {
    #[verifier::type_invariant]
    spec fn inv(&self) -> bool {
        self.pos <= self.buf@.len()
    }

    /// The whole buffer, written part and unwritten part.
    pub closed spec fn contents(&self) -> Seq<u8> {
        self.buf@
    }

    /// The number of bytes written so far.
    pub closed spec fn position(&self) -> nat {
        self.pos as nat
    }

    /// A writer over `len` zero bytes, with nothing written.
    pub fn new(len: usize) -> (w: Self)
        ensures
            w.written() == Seq::<u8>::empty(),
            w.room() == len,
            w.contents() == Seq::new(len as nat, |i: int| 0u8),
    {
        let buf = vec![0u8; len];
        assert(buf@ =~= Seq::new(len as nat, |i: int| 0u8));
        let w = ByteWriter { buf, pos: 0 };
        assert(w.written() =~= Seq::<u8>::empty());
        w
    }

    /// The buffer, once the writer is done with.
    pub fn into_bytes(self) -> (v: Vec<u8>)
        ensures
            v@ == self.contents(),
            self.room() == 0 ==> v@ == self.written(),
    {
        proof {
            use_type_invariant(&self);
            assert(self.room() == 0 ==> self.contents().take(self.position() as int) =~= self.contents());
        }
        self.buf
    }
}

impl MemWrite for ByteWriter {
    open spec fn written(&self) -> Seq<u8> {
        self.contents().take(self.position() as int)
    }

    open spec fn room(&self) -> nat {
        (self.contents().len() - self.position()) as nat
    }

    fn write(&mut self, src: &[u8]) {
        proof {
            use_type_invariant(&*self);
        }
        let amount = src.len();
        let mut taken = ByteWriter { buf: Vec::new(), pos: 0 };
        std::mem::swap(self, &mut taken);
        proof {
            use_type_invariant(&taken);
        }
        let ByteWriter { buf, pos } = taken;
        let mut buf = buf;
        let start = pos;
        assert(start + amount <= buf@.len());
        assert(buf@.len() == buf.len());
        let mut i: usize = 0;
        while i < amount
            invariant
                amount == src@.len(),
                start + amount <= buf@.len(),
                start + amount <= usize::MAX,
                buf@.len() == old(self).buf@.len(),
                i <= amount,
                forall|k: int| 0 <= k < start ==> buf@[k] == old(self).buf@[k],
                forall|k: int| 0 <= k < i ==> buf@[start + k] == src@[k],
            decreases amount - i,
        {
            buf.set(start + i, src[i]);
            i = i + 1;
        }
        assert(buf@.take(start + amount) =~= old(self).buf@.take(start as int) + src@);
        *self = ByteWriter { buf, pos: start + amount };
    }

    fn remaining(&self) -> (n: usize) {
        proof {
            use_type_invariant(self);
        }
        self.buf.len() - self.pos
    }
}

} // verus!
