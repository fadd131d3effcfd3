//! The incremental loader: a byte window over a stream, and the decisions
//! that turn a scan result into a request for bytes or for a skip.
//!
//! The loader does no I/O. Its owner performs what [`LoadStep`] asks for
//! and hands back the bytes it read ([`MoovLoader::feed`]) or reports a seek
//! ([`MoovLoader::seeked`]). A source that cannot seek simply keeps feeding:
//! bytes that fall in a pending skip are dropped on arrival.
use vstd::prelude::*;

use crate::mov::{extract_moov_body_from_buf, spec_moov_scan, Error};

verus! {

/// What the owner of a loader must do next.
#[derive(Clone, Copy, Debug, PartialEq, Eq, Structural)]
pub enum LoadStep {
    /// The `moov` body spans this range of the buffer.
    Done(usize, usize),
    /// Read at least this many more bytes, then step again.
    Read(u64),
    /// Skip this many bytes of the stream (seek, or read and feed them).
    Skip(u64),
    /// The stream holds no well-formed `moov` box.
    Failed,
}

/// The loader state that decides every step: the buffered bytes and the
/// number of stream bytes still to be skipped before buffering resumes.
pub struct LoaderView {
    pub buf: Seq<u8>,
    pub pending: nat,
}

/// The state after `c` arrives: bytes that fall within the pending skip are
/// dropped, the rest are buffered.
pub open spec fn spec_feed(v: LoaderView, c: Seq<u8>) -> LoaderView {
    if c.len() <= v.pending {
        LoaderView { buf: v.buf, pending: (v.pending - c.len()) as nat }
    } else {
        LoaderView { buf: v.buf + c.subrange(v.pending as int, c.len() as int), pending: 0 }
    }
}

/// The state after the owner skipped `n` bytes by seeking.
pub open spec fn spec_seek(v: LoaderView, n: nat) -> LoaderView {
    LoaderView { buf: v.buf, pending: (v.pending - n) as nat }
}

/// The step a state asks for, and the state it leaves behind.
pub open spec fn spec_step(v: LoaderView) -> (LoadStep, LoaderView) {
    if v.pending > 0 {
        (LoadStep::Skip(v.pending as u64), v)
    } else {
        match spec_moov_scan(v.buf, 0) {
            Ok((a, b)) => (LoadStep::Done(a, b), v),
            Err(Error::Need(n)) => (LoadStep::Read(n), v),
            Err(Error::ParseFailed) => (LoadStep::Failed, v),
            Err(Error::Skip(n)) => (
                LoadStep::Skip(n),
                LoaderView { buf: Seq::empty(), pending: n as nat },
            ),
        }
    }
}

/// Bytes may arrive in any chunks: feeding `a` and then `b` leaves the same
/// state as feeding `a + b` at once.
pub proof fn lemma_feed_chunks(v: LoaderView, a: Seq<u8>, b: Seq<u8>)
    ensures
        spec_feed(spec_feed(v, a), b) == spec_feed(v, a + b),
        spec_step(spec_feed(spec_feed(v, a), b)) == spec_step(spec_feed(v, a + b)),
{
    let ab = a + b;
    if a.len() <= v.pending {
        if b.len() > v.pending - a.len() {
            assert(b.subrange(v.pending - a.len(), b.len() as int) =~= ab.subrange(
                v.pending as int,
                ab.len() as int,
            ));
        }
    } else {
        assert(a.subrange(v.pending as int, a.len() as int) + b =~= ab.subrange(
            v.pending as int,
            ab.len() as int,
        ));
        assert(spec_feed(v, a).buf + b.subrange(0, b.len() as int) =~= spec_feed(v, ab).buf);
        assert(b.subrange(0, b.len() as int) =~= b);
    }
}

/// Skipping by seeking or by reading makes no difference: once a step asked
/// for a skip of `n` bytes, seeking past them and then feeding `c` leaves the
/// same state as feeding the `n` skipped bytes followed by `c`.
pub proof fn lemma_seek_same_as_discard(v: LoaderView, skipped: Seq<u8>, c: Seq<u8>)
    requires
        skipped.len() == v.pending,
    ensures
        spec_feed(spec_seek(v, v.pending), c) == spec_feed(v, skipped + c),
        spec_step(spec_feed(spec_seek(v, v.pending), c)) == spec_step(spec_feed(v, skipped + c)),
{
    let sc = skipped + c;
    if c.len() > 0 {
        assert(c.subrange(0, c.len() as int) =~= sc.subrange(v.pending as int, sc.len() as int));
    } else {
        assert(spec_seek(v, v.pending).buf + c.subrange(0, 0) =~= v.buf);
    }
}

/// A growable window over a stream, scanned for the `moov` box.
pub struct MoovLoader {
    buf: Vec<u8>,
    pending: u64,
    consumed: u64,
}

impl MoovLoader {
    pub closed spec fn view(&self) -> LoaderView {
        LoaderView { buf: self.buf@, pending: self.pending as nat }
    }

    /// How many stream bytes lie before the first buffered byte (saturating).
    pub closed spec fn spec_consumed(&self) -> u64 {
        self.consumed
    }

    pub fn new() -> (r: MoovLoader)
        ensures
            r.view().buf.len() == 0,
            r.view().pending == 0,
            r.spec_consumed() == 0,
    {
        MoovLoader { buf: Vec::new(), pending: 0, consumed: 0 }
    }

    /// Empties the loader so that it can serve another stream, keeping its
    /// allocation.
    pub fn reset(&mut self)
        ensures
            final(self).view().buf.len() == 0,
            final(self).view().pending == 0,
            final(self).spec_consumed() == 0,
    {
        self.buf.clear();
        self.pending = 0;
        self.consumed = 0;
    }

    /// The buffered bytes.
    pub fn buffer(&self) -> (r: &[u8])
        ensures
            r@ == self.view().buf,
    {
        self.buf.as_slice()
    }

    pub fn pending_skip(&self) -> (r: u64)
        ensures
            r == self.view().pending,
    {
        self.pending
    }

    pub fn consumed(&self) -> (r: u64)
        ensures
            r == self.spec_consumed(),
    {
        self.consumed
    }

    /// Takes the buffered bytes out of the loader.
    pub fn into_vec(self) -> (r: Vec<u8>)
        ensures
            r@ == self.view().buf,
    {
        self.buf
    }

    /// Hands the loader bytes that follow those already seen.
    pub fn feed(&mut self, chunk: &[u8])
        ensures
            final(self).view() == spec_feed(old(self).view(), chunk@),
    {
        let n = chunk.len();
        let drop: usize = if (n as u64) <= self.pending {
            n
        } else {
            self.pending as usize
        };
        let ghost start = self.buf@;
        let mut i = drop;
        while i < n
            invariant
                drop <= i <= n == chunk@.len(),
                self.buf@ == start + chunk@.subrange(drop as int, i as int),
                self.pending == old(self).pending,
                self.consumed == old(self).consumed,
                drop == (if n <= old(self).pending { n } else { old(self).pending as usize }),
            decreases n - i,
        {
            self.buf.push(chunk[i]);
            assert(chunk@.subrange(drop as int, i + 1) =~= chunk@.subrange(drop as int, i as int).push(chunk@[i as int]));
            i = i + 1;
        }
        self.pending = self.pending - drop as u64;
        self.consumed = self.consumed.saturating_add(drop as u64);
        proof {
            if n <= old(self).pending {
                assert(self.buf@ =~= start);
            } else {
                assert(self.buf@ =~= spec_feed(old(self).view(), chunk@).buf);
            }
        }
    }

    /// Records that the owner skipped `n` pending bytes by seeking.
    pub fn seeked(&mut self, n: u64)
        requires
            n <= old(self).view().pending,
        ensures
            final(self).view() == spec_seek(old(self).view(), n as nat),
    {
        self.pending = self.pending - n;
        self.consumed = self.consumed.saturating_add(n);
    }

    /// Decides the next step from the buffered bytes.
    pub fn step(&mut self) -> (r: LoadStep)
        ensures
            (r, final(self).view()) == spec_step(old(self).view()),
            r matches LoadStep::Done(a, b) ==> a <= b <= final(self).view().buf.len(),
    {
        if self.pending > 0 {
            return LoadStep::Skip(self.pending);
        }
        match extract_moov_body_from_buf(self.buf.as_slice()) {
            Ok((a, b)) => LoadStep::Done(a, b),
            Err(Error::Need(n)) => LoadStep::Read(n),
            Err(Error::ParseFailed) => LoadStep::Failed,
            Err(Error::Skip(n)) => {
                self.consumed = self.consumed.saturating_add(self.buf.len() as u64);
                self.buf.clear();
                self.pending = n;
                LoadStep::Skip(n)
            },
        }
    }
}

} // verus!
