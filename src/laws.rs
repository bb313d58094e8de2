//! Properties of the buffered writer over whole sequences of calls.
use vstd::prelude::*;

use crate::buf_write::BufWriteFD;
use crate::error::{Error, IoResult};
use crate::fd::RawFdContainer;
use crate::traits::WriteFD;

verus! {

/// The elements of all sequences in `parts`, one after the other.
pub open spec fn joined<T>(parts: Seq<Seq<T>>) -> Seq<T>
    decreases parts.len(),
{
    if parts.len() == 0 {
        Seq::empty()
    } else {
        joined(parts.drop_last()) + parts.last()
    }
}

/// `r` reports all `len` bytes written.
pub open spec fn wrote_all(r: IoResult<usize>, len: nat) -> bool {
    r matches Ok(n) && n == len
}

/// The total length of all sequences in `parts`.
pub open spec fn joined_len<T>(parts: Seq<Seq<T>>) -> nat {
    joined(parts).len()
}

/// `states` is a run of writes: state `i + 1` is what the `i`-th write, of
/// `datas[i]` with `fdss[i]` returning `results[i]`, made of state `i`.
pub open spec fn is_write_run<W: WriteFD>(
    states: Seq<BufWriteFD<W>>,
    datas: Seq<Seq<u8>>,
    fdss: Seq<Seq<RawFdContainer>>,
    results: Seq<IoResult<usize>>,
) -> bool {
    &&& states.len() == datas.len() + 1
    &&& fdss.len() == datas.len()
    &&& results.len() == datas.len()
    &&& forall|i: int|
        0 <= i < datas.len() ==> #[trigger] states[i].write_effect(
            &states[i + 1],
            datas[i],
            fdss[i],
            &results[i],
        )
}

/// Joining a prefix one element longer adds that element at the end.
proof fn lemma_joined_take<T>(parts: Seq<Seq<T>>, i: int)
    requires
        0 <= i < parts.len(),
    ensures
        joined(parts.take(i + 1)) == joined(parts.take(i)) + parts[i],
{
    assert(parts.take(i + 1).drop_last() =~= parts.take(i));
}

/// The bytes that a write of `data` reporting `r` accepted.
pub open spec fn accepted(data: Seq<u8>, r: IoResult<usize>) -> Seq<u8> {
    match r {
        Ok(n) => if n <= data.len() {
            data.take(n as int)
        } else {
            Seq::empty()
        },
        Err(_) => Seq::empty(),
    }
}

/// `states` is a run of writes and flushes: where `flushes[i]` holds, state
/// `i + 1` is what a flush returning `flush_results[i]` made of state `i`
/// (and `datas[i]`, `fdss[i]` are empty); else it is what a write of
/// `datas[i]` with `fdss[i]` returning `results[i]` made of it.
pub open spec fn is_run<W: WriteFD>(
    states: Seq<BufWriteFD<W>>,
    datas: Seq<Seq<u8>>,
    fdss: Seq<Seq<RawFdContainer>>,
    results: Seq<IoResult<usize>>,
    flushes: Seq<bool>,
    flush_results: Seq<IoResult<()>>,
) -> bool {
    &&& states.len() == datas.len() + 1
    &&& fdss.len() == datas.len()
    &&& results.len() == datas.len()
    &&& flushes.len() == datas.len()
    &&& flush_results.len() == datas.len()
    &&& forall|i: int|
        0 <= i < datas.len() ==> if #[trigger] flushes[i] {
            &&& datas[i].len() == 0
            &&& fdss[i].len() == 0
            &&& states[i].flush_effect(&states[i + 1], &flush_results[i])
        } else {
            states[i].write_effect(&states[i + 1], datas[i], fdss[i], &results[i])
        }
}

/// Over the life of a writer, through any writes and flushes whatever their
/// outcome, nothing is lost, duplicated or reordered: every descriptor handed
/// over is, in submission order, either delivered to the wrapped writer or
/// still queued, and the bytes that the writes reported accepted are, in
/// submission order, either delivered or still buffered.
pub proof fn lemma_run_conserves<W: WriteFD>(
    states: Seq<BufWriteFD<W>>,
    datas: Seq<Seq<u8>>,
    fdss: Seq<Seq<RawFdContainer>>,
    results: Seq<IoResult<usize>>,
    flushes: Seq<bool>,
    flush_results: Seq<IoResult<()>>,
)
    requires
        is_run(states, datas, fdss, results, flushes, flush_results),
    ensures
        states.last().fd_stream() == states[0].fd_stream() + joined(fdss),
        states.last().stream() == states[0].stream() + joined(
            Seq::new(datas.len(), |i: int| accepted(datas[i], results[i])),
        ),
    decreases datas.len(),
{
    let k = datas.len() as int;
    let parts = Seq::new(datas.len(), |i: int| accepted(datas[i], results[i]));
    if k == 0 {
        assert(states[0].fd_stream() + joined(fdss) =~= states[0].fd_stream());
        assert(states[0].stream() + joined(parts) =~= states[0].stream());
    } else {
        let s2 = states.take(k);
        let d2 = datas.take(k - 1);
        let f2 = fdss.take(k - 1);
        let r2 = results.take(k - 1);
        let l2 = flushes.take(k - 1);
        let o2 = flush_results.take(k - 1);
        assert forall|i: int| 0 <= i < d2.len() implies if #[trigger] l2[i] {
            &&& d2[i].len() == 0
            &&& f2[i].len() == 0
            &&& s2[i].flush_effect(&s2[i + 1], &o2[i])
        } else {
            s2[i].write_effect(&s2[i + 1], d2[i], f2[i], &r2[i])
        } by {
            assert(flushes[i] == l2[i]);
        }
        lemma_run_conserves(s2, d2, f2, r2, l2, o2);
        let parts2 = Seq::new(d2.len(), |i: int| accepted(d2[i], r2[i]));
        assert(parts.drop_last() =~= parts2);
        assert(fdss.drop_last() =~= f2);
        let last = k - 1;
        if flushes[last] {
            assert(fdss[last] =~= Seq::<RawFdContainer>::empty());
            assert(parts[last] =~= Seq::<u8>::empty());
        } else {
            assert(states[last].write_effect(
                &states[k],
                datas[last],
                fdss[last],
                &results[last],
            ));
            if let Ok(n) = results[last] {
                assert(parts[last] == datas[last].subrange(0, n as int));
            } else {
                assert(parts[last] =~= Seq::<u8>::empty());
            }
        }
        assert(states[0].fd_stream() + joined(fdss) =~= states[0].fd_stream() + joined(f2)
            + fdss[last]);
        assert(states[0].stream() + joined(parts) =~= states[0].stream() + joined(parts2)
            + parts[last]);
    }
}

/// Writes that together fit in the buffer, each smaller than its capacity,
/// all succeed in full without touching the wrapped writer, and leave the
/// buffer holding their bytes in submission order.
pub proof fn lemma_small_writes_buffered<W: WriteFD>(
    states: Seq<BufWriteFD<W>>,
    datas: Seq<Seq<u8>>,
    fdss: Seq<Seq<RawFdContainer>>,
    results: Seq<IoResult<usize>>,
)
    requires
        is_write_run(states, datas, fdss, results),
        states[0].wf(),
        states[0].buffered().len() + joined_len(datas) <= states[0].cap(),
        forall|i: int| 0 <= i < datas.len() ==> (#[trigger] datas[i]).len() < states[0].cap(),
    ensures
        forall|i: int| 0 <= i < datas.len() ==> wrote_all(#[trigger] results[i], datas[i].len()),
        states.last().wf(),
        states.last().cap() == states[0].cap(),
        states.last().inner_spec() == states[0].inner_spec(),
        states.last().delivered() == states[0].delivered(),
        states.last().buffered() == states[0].buffered() + joined(datas),
    decreases datas.len(),
{
    let k = datas.len() as int;
    if k == 0 {
        assert(states[0].buffered() + joined(datas) =~= states[0].buffered());
    } else {
        let s2 = states.take(k);
        let d2 = datas.take(k - 1);
        let f2 = fdss.take(k - 1);
        let r2 = results.take(k - 1);
        assert forall|i: int| 0 <= i < d2.len() implies #[trigger] s2[i].write_effect(
            &s2[i + 1],
            d2[i],
            f2[i],
            &r2[i],
        ) by {
            assert(states[i].write_effect(&states[i + 1], datas[i], fdss[i], &results[i]));
        }
        assert(datas.drop_last() =~= d2);
        assert forall|i: int| 0 <= i < d2.len() implies (#[trigger] d2[i]).len() < s2[0].cap() by {
            assert(d2[i] == datas[i]);
        }
        lemma_small_writes_buffered(s2, d2, f2, r2);
        assert(states[k - 1].write_effect(&states[k], datas[k - 1], fdss[k - 1], &results[k - 1]));
        assert(datas[k - 1].len() < states[0].cap());
        assert(states[0].buffered() + joined(datas) =~= states[0].buffered() + joined(d2)
            + datas[k - 1]);
        assert forall|i: int| 0 <= i < datas.len() implies wrote_all(
            #[trigger] results[i],
            datas[i].len(),
        ) by {
            if i < k - 1 {
                assert(r2[i] == results[i]);
            }
        }
    }
}

/// Writes that together fit in the buffer of a drained writer, followed by
/// a successful flush: the wrapped writer receives exactly the bytes that
/// the writes reported written, in submission order, and every descriptor
/// in submission order. Where each write is smaller than the capacity,
/// every write is reported written in full, so the wrapped writer receives
/// exactly the concatenation of the written data.
pub proof fn lemma_writes_then_flush<W: WriteFD>(
    states: Seq<BufWriteFD<W>>,
    datas: Seq<Seq<u8>>,
    fdss: Seq<Seq<RawFdContainer>>,
    results: Seq<IoResult<usize>>,
    flushed: BufWriteFD<W>,
    flush_result: IoResult<()>,
)
    requires
        is_write_run(states, datas, fdss, results),
        states[0].wf(),
        states[0].is_drained(),
        joined_len(datas) <= states[0].cap(),
        states.last().flush_effect(&flushed, &flush_result),
        flush_result is Ok,
    ensures
        flushed.delivered() == states[0].delivered() + joined(
            Seq::new(datas.len(), |i: int| accepted(datas[i], results[i])),
        ),
        flushed.delivered_fds() == states[0].delivered_fds() + joined(fdss),
        flushed.is_drained(),
        (forall|i: int| 0 <= i < datas.len() ==> (#[trigger] datas[i]).len() < states[0].cap())
            ==> {
            &&& forall|i: int|
                0 <= i < datas.len() ==> wrote_all(#[trigger] results[i], datas[i].len())
            &&& flushed.delivered() == states[0].delivered() + joined(datas)
        },
{
    let parts = Seq::new(datas.len(), |i: int| accepted(datas[i], results[i]));
    let flushes = Seq::new(datas.len(), |i: int| false);
    let flush_results = Seq::new(datas.len(), |i: int| Ok::<(), Error>(()));
    assert forall|i: int| 0 <= i < datas.len() implies if #[trigger] flushes[i] {
        &&& datas[i].len() == 0
        &&& fdss[i].len() == 0
        &&& states[i].flush_effect(&states[i + 1], &flush_results[i])
    } else {
        states[i].write_effect(&states[i + 1], datas[i], fdss[i], &results[i])
    } by {
        assert(states[i].write_effect(&states[i + 1], datas[i], fdss[i], &results[i]));
    }
    lemma_run_conserves(states, datas, fdss, results, flushes, flush_results);
    assert(states[0].stream() =~= states[0].delivered());
    assert(flushed.delivered() =~= flushed.stream());
    assert(flushed.delivered_fds() =~= flushed.fd_stream());
    assert(states[0].delivered_fds() + states[0].queued_fds() =~= states[0].delivered_fds());
    if forall|i: int| 0 <= i < datas.len() ==> (#[trigger] datas[i]).len() < states[0].cap() {
        lemma_small_writes_buffered(states, datas, fdss, results);
        assert forall|i: int| 0 <= i < datas.len() implies #[trigger] parts[i] == datas[i] by {
            assert(wrote_all(results[i], datas[i].len()));
            assert(datas[i].take(datas[i].len() as int) =~= datas[i]);
        }
        assert(parts =~= datas);
    }
}

} // verus!
