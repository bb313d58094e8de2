//! A bounded buffered writer over a descriptor-aware writer.
use vstd::prelude::*;

use crate::error::{Error, ErrorKind, IoResult};
use crate::fd::RawFdContainer;
use crate::spans::{
    first_nonempty, lemma_spans_concat_single, spans_concat, spans_len,
};
use crate::traits::{taken_prefix, Poll, WriteFD, RETRY_LIMIT};

verus! {

/// The buffer capacity, in bytes, of a writer made by [`BufWriteFD::new`].
pub const DEFAULT_CAPACITY: usize = 16384;

/// Appends the first `n` bytes of `src` to `dst`.
fn push_prefix(dst: &mut Vec<u8>, src: &[u8], n: usize)
    requires
        n <= src@.len(),
    ensures
        final(dst)@ == old(dst)@ + src@.subrange(0, n as int),
{
    let mut i: usize = 0;
    while i < n
        invariant
            i <= n,
            n <= src@.len(),
            dst@ == old(dst)@ + src@.subrange(0, i as int),
        decreases n - i,
    {
        dst.push(src[i]);
        i = i + 1;
        assert(dst@ =~= old(dst)@ + src@.subrange(0, i as int));
    }
}

/// Removes the first `n` bytes of `v`.
fn remove_front(v: &mut Vec<u8>, n: usize)
    requires
        n <= old(v)@.len(),
    ensures
        final(v)@ == old(v)@.subrange(n as int, old(v)@.len() as int),
{
    let mut rest: Vec<u8> = Vec::new();
    let mut i: usize = n;
    while i < v.len()
        invariant
            n <= i <= v@.len(),
            v@ == old(v)@,
            rest@ == v@.subrange(n as int, i as int),
        decreases v@.len() - i,
    {
        rest.push(v[i]);
        i = i + 1;
        assert(rest@ =~= v@.subrange(n as int, i as int));
    }
    *v = rest;
}

/// The buffered bytes `data`, as the spans to hand to the wrapped writer.
pub fn pending_spans(data: &Vec<u8>) -> (r: Vec<&[u8]>)
    ensures
        spans_concat(r@) == data@,
        spans_concat(r@).len() <= usize::MAX,
        r@.len() == 1,
{
    let mut spans: Vec<&[u8]> = Vec::new();
    let whole: &[u8] = data.as_slice();
    spans.push(whole);
    proof {
        lemma_spans_concat_single(whole);
        assert(spans@ =~= seq![whole]);
        vstd::slice::axiom_spec_len(whole);
    }
    spans
}

/// What the flush loop does after one write of the buffered bytes.
pub enum FlushStep {
    /// Drop this many bytes from the front of the buffer and go on.
    Drain(usize),
    /// Try the same write again; the error is returned should retries run out.
    Retry(Error),
    /// Stop with this error.
    Fail(Error),
}

/// Decides the flush loop's next step from the result of handing the
/// `buffered_len` buffered bytes, and the queued descriptors, to the
/// wrapped writer.
///
/// A write of zero bytes fails with `WriteZero`, telling apart stuck data
/// from stuck descriptors; `Interrupted` is retried; any other error is
/// returned as it is.
pub fn flush_step(result: IoResult<usize>, buffered_len: usize) -> (r: FlushStep)
    ensures
        match result {
            Ok(n) => if n == 0 {
                &&& r matches FlushStep::Fail(e)
                &&& e.spec_kind() == ErrorKind::WriteZero
                &&& e.spec_message() == if buffered_len == 0 {
                    "failed to write the buffered FDs"@
                } else {
                    "failed to write the buffered data"@
                }
            } else {
                r == FlushStep::Drain(n)
            },
            Err(e) => if e.spec_kind() == ErrorKind::Interrupted {
                r == FlushStep::Retry(e)
            } else {
                r == FlushStep::Fail(e)
            },
        },
{
    match result {
        Ok(0) => {
            if buffered_len == 0 {
                FlushStep::Fail(Error::new(ErrorKind::WriteZero, "failed to write the buffered FDs"))
            } else {
                FlushStep::Fail(Error::new(ErrorKind::WriteZero, "failed to write the buffered data"))
            }
        },
        Ok(n) => FlushStep::Drain(n),
        Err(e) => {
            if e.kind() == ErrorKind::Interrupted {
                FlushStep::Retry(e)
            } else {
                FlushStep::Fail(e)
            }
        },
    }
}

/// The result of a write whose flush failed with `e`, leaving `available`
/// bytes of free space, when the first non-empty span of its data holds
/// `first_len` bytes.
///
/// After `WouldBlock` with free space left, as much of that span as fits
/// is taken, and a partially buffered write counts as a success; with no
/// free space, or after any other error, `e` is returned as it is.
pub fn after_failed_flush(e: Error, available: usize, first_len: usize) -> (r: IoResult<usize>)
    ensures
        if e.spec_kind() == ErrorKind::WouldBlock && available > 0 {
            r matches Ok(k) && k == if first_len < available {
                first_len
            } else {
                available
            }
        } else {
            r == Err::<usize, Error>(e)
        },
{
    if e.kind() == ErrorKind::WouldBlock && available > 0 {
        if first_len < available {
            Ok(first_len)
        } else {
            Ok(available)
        }
    } else {
        Err(e)
    }
}

/// A buffered writer of bytes and file descriptors.
///
/// Bytes are collected in a buffer of fixed capacity and descriptors in an
/// unbounded queue until they are flushed to the wrapped writer. What the
/// writer has accepted, as a `WriteFD`, is what the wrapped writer has
/// accepted followed by what is still buffered or queued.
pub struct BufWriteFD<W: WriteFD> {
    inner: W,
    data_buf: Vec<u8>,
    fd_buf: Vec<RawFdContainer>,
    capacity: usize,
}

impl<W: WriteFD> BufWriteFD<W> {
    /// The buffer never holds more than its capacity.
    pub closed spec fn wf(&self) -> bool {
        self.data_buf@.len() <= self.capacity
    }

    /// The wrapped writer.
    pub closed spec fn inner_spec(&self) -> W {
        self.inner
    }

    /// The buffer capacity in bytes.
    pub closed spec fn cap(&self) -> nat {
        self.capacity as nat
    }

    /// The bytes waiting in the buffer, oldest first.
    pub closed spec fn buffered(&self) -> Seq<u8> {
        self.data_buf@
    }

    /// The descriptors waiting in the queue, oldest first.
    pub closed spec fn queued_fds(&self) -> Seq<RawFdContainer> {
        self.fd_buf@
    }

    /// The bytes that the wrapped writer has accepted, in order.
    pub closed spec fn delivered(&self) -> Seq<u8> {
        self.inner.sent()
    }

    /// The descriptors that the wrapped writer has accepted, in order.
    pub closed spec fn delivered_fds(&self) -> Seq<RawFdContainer> {
        self.inner.sent_fds()
    }

    /// Every byte ever accepted by this writer: those delivered, then those buffered.
    pub open spec fn stream(&self) -> Seq<u8> {
        self.delivered() + self.buffered()
    }

    /// Every descriptor ever accepted by this writer: those delivered, then those queued.
    pub open spec fn fd_stream(&self) -> Seq<RawFdContainer> {
        self.delivered_fds() + self.queued_fds()
    }

    /// Free space in the buffer, in bytes.
    pub open spec fn free_space(&self) -> int {
        self.cap() - self.buffered().len()
    }

    /// The writer holds nothing back: no buffered byte, no queued descriptor.
    pub open spec fn is_drained(&self) -> bool {
        self.buffered().len() == 0 && self.queued_fds().len() == 0
    }

    /// A fresh writer around `inner`: empty buffer, empty queue, empty logs.
    pub open spec fn fresh(&self, inner: W, capacity: nat) -> bool {
        &&& self.wf()
        &&& self.inner_spec() == inner
        &&& self.cap() == capacity
        &&& self.buffered().len() == 0
        &&& self.queued_fds().len() == 0
    }

    /// What a write of `data` together with `fds` did, going from `self` to
    /// `after` and returning `r`.
    ///
    /// - The descriptors join the queue at once, whatever the outcome.
    /// - On `Ok(n)` the first `n` bytes of `data` joined the stream; on
    ///   failure the stream is unchanged.
    /// - Zero bytes are reported written only for empty data, or for data of
    ///   at least the capacity, which is handed to the wrapped writer directly.
    /// - Data that fits in the free space, and is smaller than the capacity,
    ///   is taken whole into the buffer without calling the wrapped writer.
    /// - Data of at least the capacity, given without descriptors to a
    ///   drained writer, is not copied into the buffer.
    pub open spec fn write_effect(
        &self,
        after: &Self,
        data: Seq<u8>,
        fds: Seq<RawFdContainer>,
        r: &IoResult<usize>,
    ) -> bool {
        &&& self.wf() ==> after.wf()
        &&& after.cap() == self.cap()
        &&& after.fd_stream() == self.fd_stream() + fds
        &&& self.delivered().is_prefix_of(after.delivered())
        &&& self.delivered_fds().is_prefix_of(after.delivered_fds())
        &&& (r matches Ok(n) ==> n <= data.len() && after.stream() == self.stream()
            + data.subrange(0, n as int))
        &&& (r is Err ==> after.stream() == self.stream())
        &&& (r matches Ok(n) ==> (n > 0 || data.len() == 0 || data.len() >= self.cap()))
        &&& (self.wf() && data.len() <= self.free_space() && data.len() < self.cap()) ==> {
            &&& r matches Ok(n) && n == data.len()
            &&& after.inner_spec() == self.inner_spec()
            &&& after.delivered() == self.delivered()
            &&& after.delivered_fds() == self.delivered_fds()
            &&& after.buffered() == self.buffered() + data
            &&& after.queued_fds() == self.queued_fds() + fds
        }
        &&& (self.wf() && self.is_drained() && fds.len() == 0 && data.len() >= self.cap())
            ==> {
            &&& after.buffered().len() == 0
            &&& r matches Ok(n) ==> after.delivered() == self.delivered() + data.take(n as int)
            &&& r is Err ==> after.delivered() == self.delivered()
        }
    }

    /// What a flush did, going from `self` to `after` and returning `r`.
    ///
    /// Nothing is lost, duplicated or reordered; success leaves the writer
    /// drained; a drained writer hands nothing to the wrapped writer and
    /// stays drained.
    pub open spec fn flush_effect(&self, after: &Self, r: &IoResult<()>) -> bool {
        &&& self.wf() ==> after.wf()
        &&& after.cap() == self.cap()
        &&& after.stream() == self.stream()
        &&& after.fd_stream() == self.fd_stream()
        &&& self.delivered().is_prefix_of(after.delivered())
        &&& self.delivered_fds().is_prefix_of(after.delivered_fds())
        &&& (r is Ok ==> after.is_drained())
        &&& self.is_drained() ==> {
            &&& after.is_drained()
            &&& after.delivered() == self.delivered()
            &&& after.delivered_fds() == self.delivered_fds()
        }
    }

    /// Creates a writer with the default buffer capacity.
    pub fn new(inner: W) -> (r: Self)
        ensures
            r.fresh(inner, DEFAULT_CAPACITY as nat),
    {
        Self::with_capacity(DEFAULT_CAPACITY, inner)
    }

    /// Creates a writer whose buffer holds `capacity` bytes.
    pub fn with_capacity(capacity: usize, inner: W) -> (r: Self)
        ensures
            r.fresh(inner, capacity as nat),
    {
        BufWriteFD {
            inner,
            data_buf: Vec::new(),
            fd_buf: Vec::new(),
            capacity,
        }
    }

    /// The wrapped writer, for direct use; writing to it directly bypasses
    /// the buffer.
    pub fn get_mut(&mut self) -> (r: &mut W)
        ensures
            *r == old(self).inner_spec(),
            final(self).inner_spec() == *final(r),
            final(self).wf() == old(self).wf(),
            final(self).cap() == old(self).cap(),
            final(self).buffered() == old(self).buffered(),
            final(self).queued_fds() == old(self).queued_fds(),
    {
        &mut self.inner
    }

    /// Every well-formed writer holds at most its capacity, which fits in `usize`.
    pub proof fn lemma_wf_bounds(&self)
        requires
            self.wf(),
        ensures
            self.buffered().len() <= self.cap(),
            self.cap() <= usize::MAX,
            self.free_space() >= 0,
    {
    }

    /// Hands buffered bytes and queued descriptors to the wrapped writer
    /// until none are left.
    ///
    /// A call that makes no progress fails with `WriteZero`; `Interrupted`
    /// is retried; any other failure is returned as it is. Whatever the
    /// outcome, nothing is lost, duplicated or reordered: the stream of bytes
    /// and the stream of descriptors stay as they were.
    fn flush_buffer(&mut self) -> (r: IoResult<()>)
        ensures
            old(self).wf() ==> final(self).wf(),
            final(self).cap() == old(self).cap(),
            final(self).stream() == old(self).stream(),
            final(self).fd_stream() == old(self).fd_stream(),
            old(self).delivered().is_prefix_of(final(self).delivered()),
            old(self).delivered_fds().is_prefix_of(final(self).delivered_fds()),
            final(self).buffered().len() <= old(self).buffered().len(),
            r is Ok ==> final(self).is_drained(),
            old(self).is_drained() ==> (r is Ok && *final(self) == *old(self)),
    {
        let mut retries: u64 = RETRY_LIMIT;
        while !self.data_buf.is_empty() || !self.fd_buf.is_empty()
            invariant
                old(self).wf() ==> self.wf(),
                self.cap() == old(self).cap(),
                self.stream() == old(self).stream(),
                self.fd_stream() == old(self).fd_stream(),
                old(self).delivered().is_prefix_of(self.delivered()),
                old(self).delivered_fds().is_prefix_of(self.delivered_fds()),
                self.buffered().len() <= old(self).buffered().len(),
                old(self).is_drained() ==> *self == *old(self),
            decreases self.data_buf@.len(), retries,
        {
            let ghost data = self.data_buf@;
            let ghost queue = self.fd_buf@;
            let spans = pending_spans(&self.data_buf);
            let span_list: &[&[u8]] = spans.as_slice();
            let result = self.inner.write_vectored(span_list, &mut self.fd_buf);
            proof {
                let taken = taken_prefix(queue, self.fd_buf@);
                assert(queue =~= taken + self.fd_buf@);
                assert(self.fd_stream() =~= old(self).fd_stream());
            }
            match flush_step(result, self.data_buf.len()) {
                FlushStep::Drain(n) => {
                    remove_front(&mut self.data_buf, n);
                    assert(self.stream() =~= old(self).stream());
                },
                FlushStep::Retry(e) => {
                    if retries == 0 {
                        return Err(e);
                    }
                    retries = retries - 1;
                },
                FlushStep::Fail(e) => {
                    return Err(e);
                },
            }
        }
        Ok(())
    }

    /// Takes `fds` into the queue and the bytes of `bufs` into the buffer,
    /// flushing first when they do not fit, or hands data of at least the
    /// capacity straight to the wrapped writer (through `write_vectored`
    /// when `vectored`, else through `write` with `first_buffer`).
    ///
    /// When a flush cannot finish without blocking, as much of
    /// `first_buffer` as fits is buffered and reported written; with a full
    /// buffer the call fails with `WouldBlock`.
    fn write_helper(
        &mut self,
        fds: &mut Vec<RawFdContainer>,
        bufs: &[&[u8]],
        first_buffer: &[u8],
        to_write_length: usize,
        vectored: bool,
    ) -> (r: IoResult<usize>)
        requires
            to_write_length == spans_concat(bufs@).len(),
            first_buffer@.len() <= to_write_length,
            first_buffer@ == spans_concat(bufs@).subrange(0, first_buffer@.len() as int),
            first_buffer@.len() == 0 ==> to_write_length == 0,
            !vectored ==> first_buffer@ == spans_concat(bufs@),
        ensures
            old(self).write_effect(final(self), spans_concat(bufs@), old(fds)@, &r),
            final(fds)@.len() == 0,
    {
        let ghost data = spans_concat(bufs@);
        let ghost start = *self;
        self.fd_buf.append(fds);
        assert(self.fd_stream() =~= start.fd_stream() + old(fds)@);
        let ghost queued = *self;

        let free: usize = if self.data_buf.len() <= self.capacity {
            self.capacity - self.data_buf.len()
        } else {
            0
        };
        let ghost mut flushed = false;
        if free < to_write_length {
            match self.flush_buffer() {
                Ok(_) => {
                    proof {
                        flushed = true;
                    }
                },
                Err(e) => {
                    let available: usize = if self.data_buf.len() <= self.capacity {
                        self.capacity - self.data_buf.len()
                    } else {
                        0
                    };
                    match after_failed_flush(e, available, first_buffer.len()) {
                        Ok(n_to_write) => {
                            push_prefix(&mut self.data_buf, first_buffer, n_to_write);
                            assert(self.stream() =~= start.stream() + data.subrange(
                                0,
                                n_to_write as int,
                            ));
                            return Ok(n_to_write);
                        },
                        Err(e) => {
                            return Err(e);
                        },
                    }
                },
            }
        }
        if to_write_length >= self.capacity && self.data_buf.is_empty() {
            let ghost before_fds = self.fd_buf@;
            let result = if vectored {
                self.inner.write_vectored(bufs, &mut self.fd_buf)
            } else {
                self.inner.write(first_buffer, &mut self.fd_buf)
            };
            proof {
                let taken = taken_prefix(before_fds, self.fd_buf@);
                assert(before_fds =~= taken + self.fd_buf@);
                assert(self.fd_stream() =~= start.fd_stream() + old(fds)@);
                if let Ok(n) = result {
                    assert(self.stream() =~= start.stream() + data.subrange(0, n as int));
                }
            }
            result
        } else {
            let ghost pre_copy = *self;
            assert(flushed ==> pre_copy.buffered().len() == 0);
            assert(!flushed ==> pre_copy == queued);
            let mut i: usize = 0;
            while i < bufs.len()
                invariant
                    i <= bufs@.len(),
                    self.delivered() == pre_copy.delivered(),
                    self.delivered_fds() == pre_copy.delivered_fds(),
                    self.queued_fds() == pre_copy.queued_fds(),
                    self.cap() == pre_copy.cap(),
                    self.inner_spec() == pre_copy.inner_spec(),
                    self.buffered() == pre_copy.buffered() + spans_concat(bufs@.subrange(0, i as int)),
                decreases bufs@.len() - i,
            {
                proof {
                    assert(bufs@.subrange(0, i as int + 1).drop_last() =~= bufs@.subrange(0, i as int));
                }
                push_prefix(&mut self.data_buf, bufs[i], bufs[i].len());
                assert(bufs[i as int]@.subrange(0, bufs[i as int]@.len() as int) =~= bufs[i as int]@);
                i = i + 1;
                assert(self.buffered() =~= pre_copy.buffered() + spans_concat(bufs@.subrange(0, i as int)));
            }
            assert(bufs@.subrange(0, i as int) =~= bufs@);
            assert(data.subrange(0, to_write_length as int) =~= data);
            assert(self.stream() =~= start.stream() + data);
            Ok(to_write_length)
        }
    }

    /// The wrapped writer.
    pub fn get_ref(&self) -> (r: &W)
        ensures
            *r == self.inner_spec(),
    {
        &self.inner
    }
}

impl<W: WriteFD> WriteFD for BufWriteFD<W> {
    open spec fn sent(&self) -> Seq<u8> {
        self.stream()
    }

    open spec fn sent_fds(&self) -> Seq<RawFdContainer> {
        self.fd_stream()
    }

    fn write(&mut self, buf: &[u8], fds: &mut Vec<RawFdContainer>) -> (r: IoResult<usize>)
        ensures
            old(self).write_effect(final(self), buf@, old(fds)@, &r),
            final(fds)@.len() == 0,
    {
        let mut one: Vec<&[u8]> = Vec::new();
        one.push(buf);
        proof {
            lemma_spans_concat_single(buf);
            assert(one@ =~= seq![buf]);
            vstd::slice::axiom_spec_len(buf);
            assert(buf@.subrange(0, buf@.len() as int) =~= buf@);
        }
        let r = self.write_helper(fds, one.as_slice(), buf, buf.len(), false);
        assert(fds@ =~= old(fds)@.subrange(old(fds)@.len() as int, old(fds)@.len() as int));
        r
    }

    fn write_vectored(&mut self, bufs: &[&[u8]], fds: &mut Vec<RawFdContainer>) -> (r: IoResult<
        usize,
    >)
        ensures
            old(self).write_effect(final(self), spans_concat(bufs@), old(fds)@, &r),
            final(fds)@.len() == 0,
    {
        let first_nonempty_buf = first_nonempty(bufs);
        let total_len = spans_len(bufs);
        let r = self.write_helper(fds, bufs, first_nonempty_buf, total_len, true);
        assert(fds@ =~= old(fds)@.subrange(old(fds)@.len() as int, old(fds)@.len() as int));
        r
    }

    /// Flushes the buffer and queue, then the wrapped writer.
    fn flush(&mut self) -> (r: IoResult<()>)
        ensures
            old(self).flush_effect(final(self), &r),
    {
        match self.flush_buffer() {
            Ok(()) => self.inner.flush(),
            Err(e) => Err(e),
        }
    }
}

impl<W: WriteFD> Poll for BufWriteFD<W> {
    /// Asks the wrapped writer; free space in the buffer never counts as
    /// writable, so that `poll` tells when `flush` can make progress.
    fn poll(&mut self, read: bool, write: bool) -> (r: IoResult<(bool, bool)>)
        ensures
            final(self).wf() == old(self).wf(),
            final(self).cap() == old(self).cap(),
            final(self).buffered() == old(self).buffered(),
            final(self).queued_fds() == old(self).queued_fds(),
    {
        self.inner.poll(read, write)
    }
}

} // verus!
