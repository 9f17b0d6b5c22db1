//! Filling a buffer of exactly `n` bytes from a connection, read by read,
//! under an overall deadline. The caller performs each read and reports what
//! happened; the reader decides what comes next.
use vstd::prelude::*;

verus! {

/// How a read attempt failed, as far as the reader cares.
#[derive(Debug, Clone, Copy, PartialEq, Eq, Structural)]
pub enum IoErrorKind {
    /// Nothing available yet.
    WouldBlock,
    /// The per-read timeout of the connection elapsed.
    TimedOut,
    /// The call was interrupted before anything was read.
    Interrupted,
    /// Anything else: the connection is unusable.
    Other,
}

/// Why no complete buffer was produced.
#[derive(Debug, Clone, Copy, PartialEq, Eq, Structural)]
pub enum ReadError {
    /// The deadline passed with `got` of `wanted` bytes delivered.
    Timeout { got: usize, wanted: usize },
    /// A read returned zero bytes: the peer closed the connection.
    PeerClosed,
    /// Any other failure of the underlying descriptor.
    Io,
}

/// What the caller does next.
#[derive(Debug, Clone, Copy, PartialEq, Eq, Structural)]
pub enum ReadStep {
    /// All `wanted` bytes are in place.
    Complete,
    /// Read again into the remaining space.
    NeedMore,
    /// Yield briefly, then read again.
    Retry,
    /// Give up with this error.
    Failed(ReadError),
}

/// Bytes gathered so far towards a buffer of `wanted` bytes.
pub struct ExactReader {
    wanted: usize,
    data: Vec<u8>,
}

impl ExactReader {
    /// Target length.
    pub closed spec fn wanted_spec(&self) -> nat {
        self.wanted as nat
    }

    /// The bytes delivered so far, in arrival order.
    pub closed spec fn data_spec(&self) -> Seq<u8> {
        self.data@
    }

    pub open spec fn wf(&self) -> bool {
        self.data_spec().len() <= self.wanted_spec()
    }

    pub fn new(wanted: usize) -> (r: Self)
        ensures
            r.wf(),
            r.wanted_spec() == wanted,
            r.data_spec() == Seq::<u8>::empty(),
    {
        ExactReader { wanted, data: Vec::new() }
    }

    /// Number of bytes still missing.
    pub fn remaining(&self) -> (r: usize)
        requires
            self.wf(),
        ensures
            r == self.wanted_spec() - self.data_spec().len(),
    {
        self.wanted - self.data.len()
    }

    /// The timeout error for the present state: carries the partial count.
    pub fn timeout_error(&self) -> (r: ReadError)
        ensures
            r == (ReadError::Timeout {
                got: self.data_spec().len() as usize,
                wanted: self.wanted_spec() as usize,
            }),
    {
        ReadError::Timeout { got: self.data.len(), wanted: self.wanted }
    }

    /// Checked before every read: once the deadline has passed the read ends
    /// in `Timeout`.
    pub fn check_deadline(&self, deadline_passed: bool) -> (r: Option<ReadError>)
        ensures
            deadline_passed ==> r == Some(
                ReadError::Timeout {
                    got: self.data_spec().len() as usize,
                    wanted: self.wanted_spec() as usize,
                },
            ),
            !deadline_passed ==> r is None,
    {
        if deadline_passed {
            Some(self.timeout_error())
        } else {
            None
        }
    }

    /// A read returned `chunk` (at most the remaining space). An empty chunk
    /// means the peer closed; otherwise the bytes are appended in order.
    pub fn on_chunk(&mut self, chunk: &[u8]) -> (r: ReadStep)
        requires
            old(self).wf(),
            chunk@.len() <= old(self).wanted_spec() - old(self).data_spec().len(),
        ensures
            final(self).wf(),
            final(self).wanted_spec() == old(self).wanted_spec(),
            chunk@.len() == 0 ==> r == ReadStep::Failed(ReadError::PeerClosed)
                && final(self).data_spec() == old(self).data_spec(),
            chunk@.len() > 0 ==> final(self).data_spec() == old(self).data_spec() + chunk@,
            chunk@.len() > 0 ==> (r == if final(self).data_spec().len() == final(self).wanted_spec() {
                ReadStep::Complete
            } else {
                ReadStep::NeedMore
            }),
    {
        if chunk.len() == 0 {
            return ReadStep::Failed(ReadError::PeerClosed);
        }
        let ghost before = self.data@;
        let mut i: usize = 0;
        while i < chunk.len()
            invariant
                i <= chunk@.len(),
                self.wanted == old(self).wanted,
                self.data@ == before + chunk@.take(i as int),
                before == old(self).data@,
            decreases chunk@.len() - i,
        {
            self.data.push(chunk[i]);
            i = i + 1;
            proof {
                assert(chunk@.take(i as int) =~= chunk@.take(i - 1).push(chunk@[i - 1]));
            }
        }
        proof {
            assert(chunk@.take(i as int) =~= chunk@);
        }
        if self.data.len() == self.wanted {
            ReadStep::Complete
        } else {
            ReadStep::NeedMore
        }
    }

    /// A read failed with `kind`. Would-block and timed-out reads are retried
    /// until the deadline has passed; interrupted reads are retried; anything
    /// else is fatal.
    pub fn on_error(&self, kind: IoErrorKind, deadline_passed: bool) -> (r: ReadStep)
        ensures
            kind == IoErrorKind::Other ==> r == ReadStep::Failed(ReadError::Io),
            kind == IoErrorKind::Interrupted ==> r == ReadStep::Retry,
            (kind == IoErrorKind::WouldBlock || kind == IoErrorKind::TimedOut) ==> r == if deadline_passed {
                ReadStep::Failed(
                    ReadError::Timeout {
                        got: self.data_spec().len() as usize,
                        wanted: self.wanted_spec() as usize,
                    },
                )
            } else {
                ReadStep::Retry
            },
    {
        match kind {
            IoErrorKind::Other => ReadStep::Failed(ReadError::Io),
            IoErrorKind::Interrupted => ReadStep::Retry,
            _ => {
                if deadline_passed {
                    ReadStep::Failed(self.timeout_error())
                } else {
                    ReadStep::Retry
                }
            },
        }
    }

    /// The gathered bytes.
    pub fn into_bytes(self) -> (r: Vec<u8>)
        ensures
            r@ == self.data_spec(),
    {
        self.data
    }
}

} // verus!
