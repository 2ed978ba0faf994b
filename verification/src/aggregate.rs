//! The aggregator: classify every decoded instruction and union the
//! per-instruction feature sets into one deduplicated result, either in a
//! single sequential fold or by partitioning the already-delimited
//! instruction records into chunks, classifying the chunks concurrently,
//! and reducing per-chunk private sets — both strategies are proved to
//! yield the same set.

use vstd::prelude::*;
use rayon::iter::{IntoParallelRefIterator, ParallelIterator};
use crate::ExecutionMode;
use crate::classify::{classify, spec_features};
use crate::decoder::{DecodeError, InstructionDescriptor, decode_all, spec_decode};
use crate::feature_set::{FeatureSet, fs_codes};

verus! {

/// The union of the feature sets of a descriptor stream, folded in order.
pub open spec fn spec_agg(ds: Seq<InstructionDescriptor>) -> Set<u64>
    decreases ds.len(),
{
    if ds.len() == 0 {
        Set::empty()
    } else {
        spec_agg(ds.drop_last()).union(spec_features(ds.last().identity))
    }
}

/// The union of per-chunk aggregates.
pub open spec fn spec_agg_chunks(cs: Seq<Seq<InstructionDescriptor>>) -> Set<u64>
    decreases cs.len(),
{
    if cs.len() == 0 {
        Set::empty()
    } else {
        spec_agg_chunks(cs.drop_last()).union(spec_agg(cs.last()))
    }
}

/// The concatenation of a sequence of chunks.
pub open spec fn spec_concat(cs: Seq<Seq<InstructionDescriptor>>) -> Seq<InstructionDescriptor>
    decreases cs.len(),
{
    if cs.len() == 0 {
        Seq::empty()
    } else {
        spec_concat(cs.drop_last()) + cs.last()
    }
}

/// The feature set of a whole blob: decode, classify, union.
pub open spec fn spec_blob_features(s: Seq<u8>, m: ExecutionMode) -> Result<Set<u64>, DecodeError> {
    match spec_decode(s, m) {
        Ok(ds) => Ok(spec_agg(ds)),
        Err(e) => Err(e),
    }
}

proof fn lemma_agg_concat(a: Seq<InstructionDescriptor>, b: Seq<InstructionDescriptor>)
    ensures
        spec_agg(a + b) =~= spec_agg(a).union(spec_agg(b)),
    decreases b.len(),
{
    if b.len() == 0 {
        assert(a + b =~= a);
    } else {
        lemma_agg_concat(a, b.drop_last());
        assert((a + b).drop_last() =~= a + b.drop_last());
        assert((a + b).last() == b.last());
    }
}

/// Order independence: partitioning an instruction stream into contiguous
/// chunks and unioning the per-chunk feature sets yields the same set as
/// aggregating the whole stream in one pass.
pub proof fn lemma_order_independence(cs: Seq<Seq<InstructionDescriptor>>)
    ensures
        spec_agg_chunks(cs) =~= spec_agg(spec_concat(cs)),
    decreases cs.len(),
{
    if cs.len() > 0 {
        lemma_order_independence(cs.drop_last());
        lemma_agg_concat(spec_concat(cs.drop_last()), cs.last());
    }
}

/// Processing the same instruction stream twice and unioning the two results
/// yields the same set as processing it once.
pub proof fn lemma_process_twice(s: Seq<u8>, m: ExecutionMode)
    ensures
        (match spec_blob_features(s, m) {
            Ok(f) => f.union(f) =~= f,
            Err(_) => true,
        }),
{
}

/// A zero-length code blob yields an empty feature set and no error.
pub proof fn lemma_empty_blob(m: ExecutionMode)
    ensures
        spec_blob_features(Seq::empty(), m) == Ok::<Set<u64>, DecodeError>(Set::empty()),
{
}

/// Classify every instruction of the stream and union the results, in one
/// sequential fold.
pub fn aggregate(ds: &Vec<InstructionDescriptor>) -> (r: FeatureSet)
    ensures
        fs_codes(r) =~= spec_agg(ds@),
{
    let mut acc = FeatureSet::new();
    let mut i: usize = 0;
    while i < ds.len()
        invariant
            0 <= i <= ds@.len(),
            fs_codes(acc) =~= spec_agg(ds@.subrange(0, i as int)),
        decreases ds@.len() - i,
    {
        let c = classify(ds[i].identity);
        acc.union_with(&c);
        proof {
            let pre = ds@.subrange(0, i as int);
            let cur = ds@.subrange(0, i + 1 as int);
            assert(cur.drop_last() =~= pre);
            assert(cur.last() == ds@[i as int]);
        }
        i += 1;
    }
    proof {
        assert(ds@.subrange(0, ds@.len() as int) =~= ds@);
    }
    acc
}

/// Partition a descriptor stream into chunks of at most `chunk_size`
/// records; a record lands whole in exactly one chunk (chunk boundaries
/// never split an instruction) and concatenating the chunks restores the
/// stream.
pub fn chunk_descriptors(ds: &Vec<InstructionDescriptor>, chunk_size: usize) -> (r: Vec<
    Vec<InstructionDescriptor>,
>)
    requires
        chunk_size >= 1,
    ensures
        spec_concat(r@.map_values(|v: Vec<InstructionDescriptor>| v@)) =~= ds@,
{
    let mut out: Vec<Vec<InstructionDescriptor>> = Vec::new();
    let mut cur: Vec<InstructionDescriptor> = Vec::new();
    let mut i: usize = 0;
    while i < ds.len()
        invariant
            0 <= i <= ds@.len(),
            cur@.len() < chunk_size,
            spec_concat(out@.map_values(|v: Vec<InstructionDescriptor>| v@)) + cur@ =~= ds@.subrange(
                0,
                i as int,
            ),
        decreases ds@.len() - i,
    {
        let ghost pre_out = out@.map_values(|v: Vec<InstructionDescriptor>| v@);
        let ghost pre_cur = cur@;
        cur.push(ds[i]);
        proof {
            assert(ds@.subrange(0, i + 1 as int).drop_last() =~= ds@.subrange(0, i as int));
            assert(spec_concat(pre_out) + cur@ =~= ds@.subrange(0, i + 1 as int));
        }
        if cur.len() == chunk_size {
            let full = cur;
            cur = Vec::new();
            out.push(full);
            proof {
                let post = out@.map_values(|v: Vec<InstructionDescriptor>| v@);
                assert(post.drop_last() =~= pre_out);
                assert(post.last() == full@);
                assert(spec_concat(post) =~= spec_concat(pre_out) + full@);
                assert(spec_concat(post) + cur@ =~= ds@.subrange(0, i + 1 as int));
            }
        }
        i += 1;
    }
    proof {
        assert(ds@.subrange(0, ds@.len() as int) =~= ds@);
    }
    if cur.len() > 0 {
        let ghost pre_out = out@.map_values(|v: Vec<InstructionDescriptor>| v@);
        let ghost last_cur = cur@;
        out.push(cur);
        proof {
            let post = out@.map_values(|v: Vec<InstructionDescriptor>| v@);
            assert(post.drop_last() =~= pre_out);
            assert(post.last() == last_cur);
            assert(spec_concat(post) =~= spec_concat(pre_out) + last_cur);
        }
    } else {
        proof {
            assert(spec_concat(out@.map_values(|v: Vec<InstructionDescriptor>| v@)) + cur@
                =~= spec_concat(out@.map_values(|v: Vec<InstructionDescriptor>| v@)));
        }
    }
    out
}

/// Relies on rayon's `par_iter().map(..).collect()`: the closure runs once
/// on every chunk, across worker threads, and the results are collected in
/// input order. The closure only calls the verified `aggregate`.
#[verifier::external_body]
fn par_aggregate_chunks(chunks: &Vec<Vec<InstructionDescriptor>>) -> (r: Vec<FeatureSet>)
    ensures
        r@.len() == chunks@.len(),
        forall|i: int| 0 <= i < chunks@.len() ==> fs_codes(#[trigger] r@[i]) =~= spec_agg(chunks@[i]@),
{
    chunks.par_iter().map(|c| aggregate(c)).collect()
}

/// Classify the stream's chunks concurrently, each worker folding a private
/// set, then reduce the per-chunk sets; yields the same set as the single
/// sequential pass.
pub fn aggregate_parallel(ds: &Vec<InstructionDescriptor>, chunk_size: usize) -> (r: FeatureSet)
    requires
        chunk_size >= 1,
    ensures
        fs_codes(r) =~= spec_agg(ds@),
{
    let chunks = chunk_descriptors(ds, chunk_size);
    let sets = par_aggregate_chunks(&chunks);
    let ghost cviews = chunks@.map_values(|v: Vec<InstructionDescriptor>| v@);
    let mut acc = FeatureSet::new();
    let mut i: usize = 0;
    while i < sets.len()
        invariant
            0 <= i <= sets@.len(),
            sets@.len() == chunks@.len(),
            cviews == chunks@.map_values(|v: Vec<InstructionDescriptor>| v@),
            forall|k: int| 0 <= k < sets@.len() ==> fs_codes(#[trigger] sets@[k]) =~= spec_agg(
                chunks@[k]@,
            ),
            fs_codes(acc) =~= spec_agg_chunks(cviews.subrange(0, i as int)),
        decreases sets@.len() - i,
    {
        acc.union_with(&sets[i]);
        proof {
            let pre = cviews.subrange(0, i as int);
            let cur = cviews.subrange(0, i + 1 as int);
            assert(cur.drop_last() =~= pre);
            assert(cur.last() == cviews[i as int]);
            assert(cviews[i as int] == chunks@[i as int]@);
        }
        i += 1;
    }
    proof {
        assert(cviews.subrange(0, cviews.len() as int) =~= cviews);
        lemma_order_independence(cviews);
    }
    acc
}

/// Decode a code blob and union the features of every instruction, in one
/// sequential pass. Succeeds exactly when the blob decodes; a zero-length
/// blob yields the empty set.
pub fn analyze_blob(blob: &Vec<u8>, mode: ExecutionMode) -> (r: Result<FeatureSet, DecodeError>)
    ensures
        (match spec_blob_features(blob@, mode) {
            Ok(s) => r is Ok && fs_codes(r->Ok_0) =~= s,
            Err(e) => r == Err::<FeatureSet, DecodeError>(e),
        }),
{
    match decode_all(blob, mode) {
        Ok(ds) => Ok(aggregate(&ds)),
        Err(e) => Err(e),
    }
}

/// Decode a code blob and union the features of every instruction,
/// classifying chunks of the decoded stream concurrently. Returns exactly
/// what the sequential pass returns.
pub fn analyze_blob_parallel(blob: &Vec<u8>, mode: ExecutionMode, chunk_size: usize) -> (r: Result<
    FeatureSet,
    DecodeError,
>)
    requires
        chunk_size >= 1,
    ensures
        (match spec_blob_features(blob@, mode) {
            Ok(s) => r is Ok && fs_codes(r->Ok_0) =~= s,
            Err(e) => r == Err::<FeatureSet, DecodeError>(e),
        }),
{
    match decode_all(blob, mode) {
        Ok(ds) => Ok(aggregate_parallel(&ds, chunk_size)),
        Err(e) => Err(e),
    }
}

} // verus!
