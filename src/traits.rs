//! Capability contracts: readiness polling, and non-blocking reading and
//! writing of bytes together with file descriptors.
use vstd::prelude::*;
use crate::error::{Error, ErrorKind, IoResult};
use crate::fd::RawFdContainer;
use crate::spans::{first_nonempty, spans_concat};

verus! {

/// How many times the looping operations retry a transient failure
/// (`Interrupted`, or `WouldBlock` after a spurious wakeup) before giving up
/// and returning it.
pub const RETRY_LIMIT: u64 = 0xffff_ffff_ffff_ffff;

/// `rest` is what remains of `before` once descriptors were taken from its front.
pub open spec fn taken_from_front(before: Seq<RawFdContainer>, rest: Seq<RawFdContainer>) -> bool {
    rest.len() <= before.len() && rest == before.subrange(
        before.len() - rest.len(),
        before.len() as int,
    )
}

/// The descriptors that were taken from the front of `before`, leaving `rest`.
pub open spec fn taken_prefix(before: Seq<RawFdContainer>, rest: Seq<RawFdContainer>) -> Seq<
    RawFdContainer,
> {
    before.subrange(0, before.len() - rest.len())
}

/// `after` is `before` with zero or more descriptors appended.
pub open spec fn appended_to(before: Seq<RawFdContainer>, after: Seq<RawFdContainer>) -> bool {
    &&& before.len() <= after.len()
    &&& forall|i: int| 0 <= i < before.len() ==> #[trigger] after[i] == before[i]
}

/// What `read_exact` does after one read.
pub enum ReadStep {
    /// The buffer is filled up to this many bytes; go on.
    Advance(usize),
    /// Poll and read again; the error is returned should retries run out.
    Retry(Error),
    /// Stop with this error.
    Fail(Error),
}

/// Decides `read_exact`'s next step from the result of a read into the
/// unfilled part of a buffer of `len` bytes whose first `filled` bytes are
/// filled.
///
/// A read of zero bytes is a premature end of the stream; `WouldBlock` and
/// `Interrupted` are retried; any other error is returned as it is.
pub fn read_step(result: IoResult<usize>, filled: usize, len: usize) -> (r: ReadStep)
    requires
        filled < len,
        result matches Ok(n) ==> n <= len - filled,
    ensures
        match result {
            Ok(n) => if n == 0 {
                &&& r matches ReadStep::Fail(e)
                &&& e.spec_kind() == ErrorKind::UnexpectedEof
                &&& e.spec_message() == "failed to fill the whole buffer"@
            } else {
                r == ReadStep::Advance((filled + n) as usize)
            },
            Err(e) => if e.spec_kind() == ErrorKind::WouldBlock || e.spec_kind()
                == ErrorKind::Interrupted {
                r == ReadStep::Retry(e)
            } else {
                r == ReadStep::Fail(e)
            },
        },
{
    match result {
        Ok(0) => ReadStep::Fail(Error::new(ErrorKind::UnexpectedEof, "failed to fill the whole buffer")),
        Ok(n) => ReadStep::Advance(filled + n),
        Err(e) => {
            if e.kind() == ErrorKind::WouldBlock || e.kind() == ErrorKind::Interrupted {
                ReadStep::Retry(e)
            } else {
                ReadStep::Fail(e)
            }
        },
    }
}

/// Level-triggered readiness of a stream.
pub trait Poll {
    /// Checks, or waits for, readiness of the stream for reading and/or
    /// writing, returning `(readable, writable)`.
    ///
    /// `(false, false)` is a valid answer, and an operation may still report
    /// `WouldBlock` after readiness was reported.
    fn poll(&mut self, read: bool, write: bool) -> (r: IoResult<(bool, bool)>)
        requires
            read || write,
    ;
}

/// A non-blocking writer of bytes and file descriptors.
///
/// Descriptors that a call sends are removed from the front of the given list,
/// in order. A descriptor may reach the peer before the bytes it was sent
/// with, never after them.
pub trait WriteFD: Poll {
    /// The bytes this writer has accepted so far, in order.
    spec fn sent(&self) -> Seq<u8>;

    /// The descriptors this writer has accepted so far, in order.
    spec fn sent_fds(&self) -> Seq<RawFdContainer>;

    /// Writes a prefix of `buf` and some of `fds` without blocking, returning
    /// how many bytes were written; fails with `WouldBlock` when no progress
    /// is possible.
    ///
    /// `Ok(n)` means that exactly the first `n` bytes of `buf` were accepted;
    /// a failure means that no byte was. The descriptors accepted are those
    /// taken from the front of `fds`.
    fn write(&mut self, buf: &[u8], fds: &mut Vec<RawFdContainer>) -> (r: IoResult<usize>)
        ensures
            r matches Ok(n) ==> n <= buf@.len() && final(self).sent() == old(self).sent()
                + buf@.take(n as int),
            r is Err ==> final(self).sent() == old(self).sent(),
            taken_from_front(old(fds)@, final(fds)@),
            final(self).sent_fds() == old(self).sent_fds() + taken_prefix(old(fds)@, final(fds)@),
    ;

    /// Like `write`, on the concatenation of `bufs`.
    ///
    /// The provided implementation writes the first non-empty span only.
    fn write_vectored(&mut self, bufs: &[&[u8]], fds: &mut Vec<RawFdContainer>) -> (r: IoResult<
        usize,
    >)
        requires
            spans_concat(bufs@).len() <= usize::MAX,
        ensures
            r matches Ok(n) ==> n <= spans_concat(bufs@).len() && final(self).sent() == old(
                self,
            ).sent() + spans_concat(bufs@).take(n as int),
            r is Err ==> final(self).sent() == old(self).sent(),
            taken_from_front(old(fds)@, final(fds)@),
            final(self).sent_fds() == old(self).sent_fds() + taken_prefix(old(fds)@, final(fds)@),
        default_ensures
            spans_concat(bufs@).len() == 0 ==> (r matches Ok(0) && final(fds)@ == old(fds)@),
    {
        let first = first_nonempty(bufs);
        if first.len() == 0 {
            assert(fds@.subrange(0, fds@.len() as int) =~= fds@);
            assert(spans_concat(bufs@).take(0) =~= Seq::<u8>::empty());
            assert(self.sent() + Seq::<u8>::empty() =~= self.sent());
            assert(taken_prefix(fds@, fds@) =~= Seq::<RawFdContainer>::empty());
            assert(self.sent_fds() + Seq::<RawFdContainer>::empty() =~= self.sent_fds());
            Ok(0)
        } else {
            let r = self.write(first, fds);
            if let Ok(n) = r {
                assert(first@.take(n as int) =~= spans_concat(bufs@).take(n as int));
            }
            r
        }
    }

    /// Writes out whatever this writer itself holds back, without blocking;
    /// fails with `WouldBlock` when that cannot be done completely. Accepts
    /// nothing new.
    fn flush(&mut self) -> (r: IoResult<()>)
        ensures
            final(self).sent() == old(self).sent(),
            final(self).sent_fds() == old(self).sent_fds(),
    ;
}

/// A non-blocking reader of bytes and file descriptors.
///
/// Received descriptors are appended to the given list in arrival order. A
/// descriptor may arrive before the bytes it was sent with, never after them.
pub trait ReadFD: Poll {
    /// Reads some bytes into the front of `buf` and appends received
    /// descriptors to `fd_storage`, without blocking; returns how many bytes
    /// were read, or fails with `WouldBlock` when there is nothing to read.
    fn read(&mut self, buf: &mut [u8], fd_storage: &mut Vec<RawFdContainer>) -> (r: IoResult<
        usize,
    >)
        ensures
            final(buf)@.len() == old(buf)@.len(),
            r matches Ok(n) ==> (n <= old(buf)@.len() && final(buf)@.subrange(
                n as int,
                old(buf)@.len() as int,
            ) == old(buf)@.subrange(n as int, old(buf)@.len() as int)),
            r is Err ==> final(buf)@ == old(buf)@,
            appended_to(old(fd_storage)@, final(fd_storage)@),
    ;

    /// Fills all of `buf`, polling for readability and reading until done.
    ///
    /// `WouldBlock` and `Interrupted` are retried; a read of zero bytes while
    /// bytes are still missing fails with `UnexpectedEof`; other failures are
    /// returned as they are. On failure the bytes read so far stay at the
    /// front of `buf` and the rest of `buf` is untouched.
    fn read_exact(&mut self, buf: &mut [u8], fd_storage: &mut Vec<RawFdContainer>) -> (r:
        IoResult<()>)
        ensures
            final(buf)@.len() == old(buf)@.len(),
            appended_to(old(fd_storage)@, final(fd_storage)@),
            old(buf)@.len() == 0 ==> (r is Ok && final(fd_storage)@ == old(fd_storage)@),
            r is Err ==> exists|k: int|
                0 <= k < old(buf)@.len() && #[trigger] final(buf)@.subrange(
                    k,
                    old(buf)@.len() as int,
                ) == old(buf)@.subrange(k, old(buf)@.len() as int),
    {
        let len = buf.len();
        let mut filled: usize = 0;
        let mut retries: u64 = RETRY_LIMIT;
        while filled < len
            invariant
                filled <= len,
                len == old(buf)@.len(),
                buf@.len() == len,
                buf@.subrange(filled as int, len as int) == old(buf)@.subrange(
                    filled as int,
                    len as int,
                ),
                appended_to(old(fd_storage)@, fd_storage@),
                len == 0 ==> fd_storage@ == old(fd_storage)@,
            decreases len - filled, retries,
        {
            let ghost before = fd_storage@;
            if let Err(e) = self.poll(true, false) {
                assert(buf@.subrange(filled as int, len as int) == old(buf)@.subrange(
                    filled as int,
                    len as int,
                ));
                return Err(e);
            }
            proof {
                assert(appended_to(old(fd_storage)@, fd_storage@));
            }
            let ghost whole = buf@;
            let (head, rest) = buf.split_at_mut(filled);
            let ghost rest_before = rest@;
            let result = self.read(rest, fd_storage);
            let ghost rest_after = rest@;
            assert(buf@ == head@ + rest@);
            assert(head@ == whole.subrange(0, filled as int));
            match read_step(result, filled, len) {
                ReadStep::Advance(next) => {
                    proof {
                        let n = next - filled;
                        assert(buf@.subrange(next as int, len as int) =~= rest_after.subrange(
                            n as int,
                            rest_after.len() as int,
                        ));
                        assert(rest_before.subrange(n as int, rest_before.len() as int)
                            =~= whole.subrange(next as int, len as int));
                        assert(old(buf)@.subrange(next as int, len as int) =~= old(buf)@.subrange(
                            filled as int,
                            len as int,
                        ).subrange(n as int, len - filled));
                    }
                    filled = next;
                },
                ReadStep::Retry(e) => {
                    assert(buf@ =~= whole);
                    if retries == 0 {
                        assert(buf@.subrange(filled as int, len as int) == old(buf)@.subrange(
                            filled as int,
                            len as int,
                        ));
                        return Err(e);
                    }
                    retries = retries - 1;
                },
                ReadStep::Fail(e) => {
                    proof {
                        assert(rest_after =~= rest_after.subrange(0, rest_after.len() as int));
                        assert(rest_before =~= rest_before.subrange(0, rest_before.len() as int));
                        assert(rest_after == rest_before);
                        assert(buf@.subrange(filled as int, len as int) =~= rest_after);
                        assert(rest_before =~= whole.subrange(filled as int, len as int));
                        assert(buf@.subrange(filled as int, len as int) == old(buf)@.subrange(
                            filled as int,
                            len as int,
                        ));
                    }
                    return Err(e);
                },
            }
        }
        Ok(())
    }
}

} // verus!
