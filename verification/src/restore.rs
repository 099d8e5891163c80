use vstd::prelude::*;
use crate::error::CommChannelError;
use crate::transport::{RecvChannel, SendChannel};

verus! {

/// A receiving end that replays bytes saved earlier.
pub struct RestoreVec {
    vec: Vec<u8>,
    pos: usize,
}

impl RestoreVec {
    #[verifier::type_invariant]
    spec fn inv(&self) -> bool {
        self.pos <= self.vec@.len()
    }

    /// How far the replay has got.
    pub closed spec fn position(&self) -> nat {
        self.pos as nat
    }

    /// All the saved bytes.
    pub closed spec fn saved(&self) -> Seq<u8> {
        self.vec@
    }

    /// A replay of `vec` from its start.
    pub fn new(vec: Vec<u8>) -> (r: Self)
        ensures
            r.saved() == vec@,
            r.position() == 0,
            r.pending() == vec@,
    {
        let r = RestoreVec { vec, pos: 0 };
        assert(r.pending() =~= vec@);
        r
    }
}

impl RecvChannel for RestoreVec {
    /// The saved bytes not replayed yet.
    open spec fn pending(&self) -> Seq<u8> {
        self.saved().subrange(self.position() as int, self.saved().len() as int)
    }

    /// The replay position plus `n` fits in a `usize`.
    open spec fn can_get(&self, n: nat) -> bool {
        self.position() + n <= usize::MAX
    }

    proof fn lemma_can_get_fewer(&self, a: nat, b: nat) {
    }

    /// A replay that runs out of saved bytes fails with `RestoreEof`.
    open spec fn short_read_error() -> CommChannelError {
        CommChannelError::RestoreEof
    }

    /// Saved calls hold no timestamps.
    open spec fn timestamp_len(&self) -> nat {
        0
    }

    fn timestamp_size(&self) -> (n: usize) {
        0
    }

    /// Fails with `RestoreEof`, taking nothing, where fewer than
    /// `dst.len()` bytes are left.
    fn get_bytes(&mut self, dst: &mut [u8]) -> (r: Result<(), CommChannelError>)
        ensures
            r is Err ==> final(dst)@ == old(dst)@,
            final(self).saved() == old(self).saved(),
    {
        proof {
            use_type_invariant(&*self);
        }
        let n = dst.len();
        let end = self.pos + n;
        if end > self.vec.len() {
            Err(CommChannelError::RestoreEof)
        } else {
            let start = self.pos;
            let mut i: usize = 0;
            while i < n
                invariant
                    n == dst@.len(),
                    start + n == end,
                    end <= self.vec@.len(),
                    i <= n,
                    forall|j: int| 0 <= j < i ==> dst@[j] == self.vec@[start + j],
                decreases n - i,
            {
                dst[i] = self.vec[start + i];
                i = i + 1;
            }
            self.pos = end;
            proof {
                let p = old(self).pending();
                assert(dst@ =~= p.take(n as int));
                assert(self.pending() =~= p.skip(n as int));
            }
            Ok(())
        }
    }
}

/// A sending end that discards everything it is given.
pub struct BlackHole {
    sent: Ghost<Seq<u8>>,
}

impl BlackHole {
    /// A black hole that has taken nothing yet.
    pub fn new() -> (b: Self)
        ensures
            b.sent() == Seq::<u8>::empty(),
    {
        BlackHole { sent: Ghost(Seq::empty()) }
    }
}

impl SendChannel for BlackHole {
    /// Every byte handed over, though none of them goes anywhere.
    closed spec fn sent(&self) -> Seq<u8> {
        self.sent@
    }

    /// A black hole takes any number of bytes.
    open spec fn can_put(&self, n: nat) -> bool {
        true
    }

    open spec fn can_flush(&self) -> bool {
        true
    }

    proof fn lemma_can_put_fewer(&self, a: nat, b: nat) {
    }

    fn flush(&mut self) -> (r: Result<(), CommChannelError>) {
        Ok(())
    }

    fn put_bytes(&mut self, src: &[u8]) -> (r: Result<(), CommChannelError>) {
        self.sent = Ghost(self.sent@ + src@);
        Ok(())
    }
}

} // verus!
