//! The transfer engine.
//!
//! The engine consumes the chunks of a streamed resource in order, appends
//! them to the destination, and — when a total content length was
//! advertised — reports each rise of the completed percentage to a
//! caller-supplied callback, as the increase over the last report.  The
//! callback answers whether the transfer should stop; a `true` aborts the
//! transfer before the pending chunk is written.
//!
//! Fetching the chunks from the network and holding the destination file
//! are the caller's work; the engine decides everything in between.

use vstd::prelude::*;
use vstd::string::StringExecFns;
use crate::progress::{
    delta_seq, percent_of, sum_seq, ProgressTracker, lemma_sum_take_le, lemma_sum_seq_nonneg,
};

verus! {

/// Why a transfer did not complete.
pub enum TransferError {
    /// The request or the transport failed; the partial file is kept for
    /// diagnosis.
    Network(String),
    /// The filesystem failed; the partial file is kept for diagnosis.
    Io(String),
    /// The progress callback asked to stop; the caller deletes the partial
    /// file.
    Cancelled,
}

impl TransferError {
    /// A short description of the error, for the caller's log.
    pub fn message(&self) -> (r: String)
        ensures
            match self {
                TransferError::Network(m) => r@ == "network error: "@ + m@,
                TransferError::Io(m) => r@ == "io error: "@ + m@,
                TransferError::Cancelled => r@ == "download stopped"@,
            },
    {
        match self {
            TransferError::Network(m) => {
                let mut s = String::from_str("network error: ");
                s.append(m.as_str());
                s
            },
            TransferError::Io(m) => {
                let mut s = String::from_str("io error: ");
                s.append(m.as_str());
                s
            },
            TransferError::Cancelled => String::from_str("download stopped"),
        }
    }
}

/// The lengths of a sequence of chunks.
pub open spec fn lens_of(chunks: Seq<Seq<u8>>) -> Seq<int> {
    chunks.map_values(|c: Seq<u8>| c.len() as int)
}

/// All bytes of a sequence of chunks, in arrival order.
pub open spec fn concat_chunks(chunks: Seq<Seq<u8>>) -> Seq<u8>
    decreases chunks.len(),
{
    if chunks.len() == 0 {
        Seq::empty()
    } else {
        concat_chunks(chunks.drop_last()) + chunks.last()
    }
}

/// The views of a vector of chunk buffers.
pub open spec fn chunk_views(chunks: Seq<Vec<u8>>) -> Seq<Seq<u8>> {
    chunks.map_values(|c: Vec<u8>| c@)
}

/// For a stream whose chunks sum to the advertised total, the deltas the
/// engine reports — `delta_seq` of the chunk lengths, per the contract of
/// `transfer_chunks` — sum to exactly 100.
pub proof fn lemma_engine_deltas_sum_to_100(chunks: Seq<Seq<u8>>, t: u64)
    requires
        t > 0,
        sum_seq(lens_of(chunks)) == t as int,
    ensures
        sum_seq(delta_seq(lens_of(chunks), t as int)) == 100,
{
    assert(forall|i: int| 0 <= i < lens_of(chunks).len() ==> #[trigger] lens_of(chunks)[i] >= 0);
    crate::progress::lemma_full_transfer_deltas_sum_to_100(lens_of(chunks), t as int);
}

/// Append every byte of `chunk` to `out`.
pub(crate) fn append_bytes(out: &mut Vec<u8>, chunk: &Vec<u8>)
    ensures
        final(out)@ == old(out)@ + chunk@,
{
    let mut i: usize = 0;
    while i < chunk.len()
        invariant
            0 <= i <= chunk.len(),
            out@ == old(out)@ + chunk@.take(i as int),
        decreases chunk.len() - i,
    {
        out.push(chunk[i]);
        proof {
            assert(chunk@.take(i + 1).drop_last() =~= chunk@.take(i as int));
            assert(out@ =~= old(out)@ + chunk@.take(i + 1));
        }
        i += 1;
    }
    proof {
        assert(chunk@.take(chunk@.len() as int) =~= chunk@);
    }
}

/// Stream `chunks` into `out`, reporting each percentage rise to
/// `on_delta`.
///
/// With an advertised total, the deltas handed to `on_delta` are exactly
/// `delta_seq` of the chunk lengths; the first invocation that answers
/// `true` aborts the transfer with `Cancelled` before the chunk that
/// caused it is written.  With no advertised total the callback contract
/// is not even required, so the engine cannot invoke it, and every byte
/// is written.
pub fn transfer_chunks<F: Fn(u32) -> bool>(
    total: Option<u64>,
    chunks: &Vec<Vec<u8>>,
    on_delta: F,
    out: &mut Vec<u8>,
) -> (r: Result<(), TransferError>)
    requires
        total is Some ==> forall|d: u32| call_requires(on_delta, (d,)),
        sum_seq(lens_of(chunk_views(chunks@))) <= u64::MAX,
    ensures
        total is None ==> r is Ok,
        r is Ok ==> final(out)@ == old(out)@ + concat_chunks(chunk_views(chunks@)),
        match (total, r) {
            (Some(t), Result::Ok(())) => {
                let ds = delta_seq(lens_of(chunk_views(chunks@)), t as int);
                forall|i: int|
                    0 <= i < ds.len() ==> call_ensures(on_delta, (ds[i] as u32,), false)
            },
            (Some(t), Result::Err(e)) => {
                &&& e is Cancelled
                &&& exists|k: int|
                    {
                        &&& 0 <= k < chunks@.len()
                        &&& final(out)@ == old(out)@ + concat_chunks(chunk_views(chunks@).take(k))
                        &&& {
                            let em = delta_seq(
                                lens_of(chunk_views(chunks@)).take(k + 1),
                                t as int,
                            );
                            &&& em.len() > 0
                            &&& call_ensures(on_delta, (em.last() as u32,), true)
                            &&& forall|i: int|
                                0 <= i < em.len() - 1 ==> call_ensures(
                                    on_delta,
                                    (em[i] as u32,),
                                    false,
                                )
                        }
                    }
            },
            (None, Result::Ok(())) => true,
            (None, Result::Err(_)) => false,
        },
        (forall|d: u32, b: bool| call_ensures(on_delta, (d,), b) ==> !b) ==> r is Ok,
{
    let ghost views = chunk_views(chunks@);
    let ghost lens = lens_of(views);
    proof {
        assert(forall|i: int| 0 <= i < lens.len() ==> lens[i] >= 0);
    }
    let mut tracker = ProgressTracker::new(total);
    proof {
        if let Some(t) = total {
            assert(lens.take(0) =~= Seq::<int>::empty());
            if t > 0 {
                vstd::arithmetic::div_mod::lemma_div_of0(t as int);
                assert(0int * 100 == 0) by (nonlinear_arith);
            }
            assert(percent_of(0, t as int) == 0);
        }
    }
    let mut j: usize = 0;
    while j < chunks.len()
        invariant
            0 <= j <= chunks.len(),
            views == chunk_views(chunks@),
            lens == lens_of(views),
            sum_seq(lens) <= u64::MAX,
            total is Some ==> forall|d: u32| call_requires(on_delta, (d,)),
            tracker.wf(),
            tracker.total_spec() == total,
            out@ == old(out)@ + concat_chunks(views.take(j as int)),
            match total {
                Option::Some(t) => {
                    &&& tracker.bytes_spec() == sum_seq(lens.take(j as int))
                    &&& tracker.percent_spec() == percent_of(
                        sum_seq(lens.take(j as int)),
                        t as int,
                    )
                    &&& {
                        let ds = delta_seq(lens.take(j as int), t as int);
                        forall|i: int|
                            0 <= i < ds.len() ==> call_ensures(on_delta, (ds[i] as u32,), false)
                    }
                },
                Option::None => true,
            },
        decreases chunks.len() - j,
    {
        let chunk = &chunks[j];
        proof {
            assert(lens.take(j + 1).drop_last() =~= lens.take(j as int));
            assert(lens.take(j + 1).last() == lens[j as int]);
            assert(views.take(j + 1).drop_last() =~= views.take(j as int));
            assert(views.take(j + 1).last() == views[j as int]);
            lemma_sum_take_le(lens, j + 1);
            lemma_sum_seq_nonneg(lens.take(j as int));
            if let Some(t) = total {
                tracker.lemma_wf_percent_bounded();
            }
        }
        proof {
            assert(lens[j as int] == views[j as int].len());
            assert(views[j as int] == chunks@[j as int]@);
            assert(sum_seq(lens.take(j + 1)) == sum_seq(lens.take(j as int)) + lens[j as int]);
        }
        let d = tracker.record(chunk.len());
        proof {
            if let Some(t) = total {
                assert(tracker.bytes_spec() == sum_seq(lens.take(j + 1)));
            }
        }
        if let Some(delta) = d {
            proof {
                if let Some(t) = total {
                    let before = percent_of(sum_seq(lens.take(j as int)), t as int);
                    let after = percent_of(sum_seq(lens.take(j + 1)), t as int);
                    assert(after > before);
                    assert(delta as int == after - before);
                    let em = delta_seq(lens.take(j + 1), t as int);
                    let prev = delta_seq(lens.take(j as int), t as int);
                    assert(em == prev.push(after - before));
                    assert(em.last() == delta as int);
                }
            }
            if on_delta(delta) {
                proof {
                    if let Some(t) = total {
                        let em = delta_seq(lens.take(j + 1), t as int);
                        let prev = delta_seq(lens.take(j as int), t as int);
                        assert(em.drop_last() =~= prev);
                        assert(forall|i: int|
                            0 <= i < em.len() - 1 ==> call_ensures(on_delta, (em[i] as u32,), false));
                    }
                }
                return Err(TransferError::Cancelled);
            }
        }
        append_bytes(out, chunk);
        proof {
            assert(out@ =~= old(out)@ + concat_chunks(views.take(j + 1)));
            if let Some(t) = total {
                let em = delta_seq(lens.take(j + 1), t as int);
                let prev = delta_seq(lens.take(j as int), t as int);
                if em != prev {
                    assert(em == prev.push(em.last()));
                    assert(forall|i: int|
                        0 <= i < em.len() ==> call_ensures(on_delta, (em[i] as u32,), false));
                }
            }
        }
        j += 1;
    }
    proof {
        assert(views.take(chunks@.len() as int) =~= views);
        assert(lens.take(chunks@.len() as int) =~= lens);
    }
    Ok(())
}

} // verus!
