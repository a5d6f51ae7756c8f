//! Capturing a stream's output in bounded memory.

use crate::text::last_of;
use vstd::prelude::*;

verus! {

/// Per-stream capture cap in bytes. The end is kept: tallies and failure lists
/// stand at the end of suite output.
pub const CAPTURE_CAP: usize = 4 * 1024 * 1024;

/// What one read from a stream gave.
#[derive(Debug)]
pub enum ReadOutcome {
    /// Bytes, in order. None at all means that the stream has ended.
    Filled(Vec<u8>),
    /// The read failed.
    Failed,
}

/// The bytes of a read, where it brought any.
pub open spec fn read_bytes(read: ReadOutcome) -> Seq<u8> {
    match read {
        ReadOutcome::Filled(bytes) => bytes@,
        ReadOutcome::Failed => Seq::empty(),
    }
}

/// What a stream delivers over some reads: the bytes of all of them up to the
/// first that brings nothing.
pub open spec fn delivered(reads: Seq<ReadOutcome>) -> Seq<u8>
    decreases reads.len(),
{
    if reads.len() == 0 || read_bytes(reads[0]).len() == 0 {
        Seq::empty()
    } else {
        read_bytes(reads[0]) + delivered(reads.skip(1))
    }
}

/// A stream delivers the bytes of its reads in order, until a read fails or brings
/// nothing; what would follow such a read is never delivered.
pub proof fn law_a_stream_is_delivered_until_it_ends(bytes: Vec<u8>, rest: Seq<ReadOutcome>)
    ensures
        delivered(Seq::empty()) == Seq::<u8>::empty(),
        delivered(seq![ReadOutcome::Failed] + rest) == Seq::<u8>::empty(),
        bytes@.len() == 0 ==> delivered(seq![ReadOutcome::Filled(bytes)] + rest) == Seq::<
            u8,
        >::empty(),
        bytes@.len() > 0 ==> delivered(seq![ReadOutcome::Filled(bytes)] + rest) == bytes@
            + delivered(rest),
{
    let reads = seq![ReadOutcome::Filled(bytes)] + rest;
    assert(reads.skip(1) =~= rest);
    assert(reads[0] == ReadOutcome::Filled(bytes));
    assert((seq![ReadOutcome::Failed] + rest)[0] is Failed);
}

/// A growing capture that keeps the end of what it was fed. A stream that is
/// written in a loop costs memory by the cap, not by its length.
pub struct CappedTail {
    kept: Vec<u8>,
    cap: usize,
    fed: Ghost<Seq<u8>>,
}

impl View for CappedTail {
    type V = Seq<u8>;

    /// Everything that was fed.
    closed spec fn view(&self) -> Seq<u8> {
        self.fed@
    }
}

impl CappedTail {
    /// The cap that the capture was made with.
    pub closed spec fn limit(self) -> nat {
        self.cap as nat
    }

    /// The number of bytes held in memory.
    pub closed spec fn held(self) -> nat {
        self.kept@.len()
    }

    /// What is held is an end of what was fed, long enough for the cap, and
    /// never more than two caps long.
    pub closed spec fn wf(self) -> bool {
        &&& self.kept@ == last_of(self.fed@, self.kept@.len())
        &&& self.kept@.len() >= last_of(self.fed@, self.cap as nat).len()
        &&& self.kept@.len() <= 2 * self.cap
    }

    /// An empty capture.
    pub fn new(cap: usize) -> (r: CappedTail)
        ensures
            r.wf(),
            r@ == Seq::<u8>::empty(),
            r.limit() == cap,
            r.held() == 0,
    {
        CappedTail { kept: Vec::new(), cap, fed: Ghost(Seq::empty()) }
    }

    /// Takes in what one read gave, and says whether the stream is to be read
    /// on. Between two reads no more than two caps are held.
    pub fn feed(&mut self, read: &ReadOutcome) -> (more: bool)
        requires
            old(self).wf(),
        ensures
            final(self).wf(),
            final(self).limit() == old(self).limit(),
            final(self)@ == old(self)@ + read_bytes(*read),
            final(self).held() <= 2 * final(self).limit(),
            more == (read_bytes(*read).len() > 0),
    {
        match read {
            ReadOutcome::Filled(bytes) => {
                let ghost before = self.kept@;
                self.kept.extend_from_slice(bytes.as_slice());
                assert(self.kept@ =~= before + bytes@);
                proof {
                    self.fed@ = self.fed@ + bytes@;
                }
                assert(self.kept@ =~= last_of(self.fed@, self.kept@.len()));
                let held: usize = self.kept.len();
                if self.cap <= usize::MAX / 2 && held > self.cap * 2 {
                    self.shrink();
                }
                bytes.len() > 0
            },
            ReadOutcome::Failed => {
                assert(self.fed@ + read_bytes(*read) =~= self.fed@);
                false
            },
        }
    }

    /// Drops all but the last `cap` bytes held.
    fn shrink(&mut self)
        requires
            old(self).cap <= old(self).kept@.len(),
            old(self).kept@ == last_of(old(self).fed@, old(self).kept@.len()),
        ensures
            final(self).wf(),
            final(self).fed == old(self).fed,
            final(self).cap == old(self).cap,
            final(self).kept@ == last_of(old(self).fed@, old(self).cap as nat),
    {
        let at: usize = self.kept.len() - self.cap;
        self.kept = self.kept.split_off(at);
        assert(self.kept@ =~= last_of(self.fed@, self.cap as nat));
    }

    /// The last bytes that were fed, as many as the cap allows.
    pub fn finish(self) -> (r: Vec<u8>)
        requires
            self.wf(),
        ensures
            r@ == last_of(self@, self.limit()),
    {
        let mut capture = self;
        if capture.kept.len() > capture.cap {
            capture.shrink();
        }
        capture.kept
    }
}

/// Drains a stream, keeping at most the last `cap` bytes. The reads come in the
/// order in which the stream gave them; the first that brings nothing ends it.
pub fn drain_capped(reads: &Vec<ReadOutcome>, cap: usize) -> (r: Vec<u8>)
    ensures
        r@ == last_of(delivered(reads@), cap as nat),
{
    let mut capture = CappedTail::new(cap);
    let mut i: usize = 0;
    assert(reads@.skip(0) == reads@);
    while i < reads.len()
        invariant_except_break
            capture@ + delivered(reads@.skip(i as int)) == delivered(reads@),
        invariant
            i <= reads@.len(),
            capture.wf(),
            capture.limit() == cap,
        ensures
            capture@ == delivered(reads@),
        decreases reads@.len() - i,
    {
        assert(reads@.skip(i as int)[0] == reads@[i as int]);
        assert(reads@.skip(i as int).skip(1) == reads@.skip(i + 1));
        if !capture.feed(&reads[i]) {
            break;
        }
        i = i + 1;
    }
    capture.finish()
}

} // verus!
