use vstd::prelude::*;

verus! {

/// The batches of a training pass over `total` examples: contiguous half-open
/// index ranges, in order, each of `batch_size` examples except the last,
/// which holds whatever remains.
pub open spec fn is_batch_partition(r: Seq<(usize, usize)>, total: int, batch_size: int) -> bool {
    &&& (total == 0 <==> r.len() == 0)
    &&& (r.len() > 0 ==> r[0].0 == 0 && r[r.len() - 1].1 == total)
    &&& (forall|i: int| 0 <= i < r.len() ==> #[trigger] r[i].0 < r[i].1 <= total)
    &&& (forall|i: int| 0 <= i < r.len() - 1 ==> #[trigger] r[i].1 - r[i].0 == batch_size)
    &&& (forall|i: int| 0 <= i < r.len() - 1 ==> #[trigger] r[i + 1].0 == r[i].1)
    &&& (r.len() > 0 ==> r[r.len() - 1].1 - r[r.len() - 1].0 <= batch_size)
}

/// Splits `0..total` into contiguous batches of `batch_size`; the last batch
/// may be shorter.
pub fn batch_bounds(total: usize, batch_size: usize) -> (r: Vec<(usize, usize)>)
    requires
        batch_size >= 1,
    ensures
        is_batch_partition(r@, total as int, batch_size as int),
{
    let mut r: Vec<(usize, usize)> = Vec::new();
    let mut start: usize = 0;
    while start < total
        invariant
            batch_size >= 1,
            start <= total,
            r@.len() == 0 ==> start == 0,
            r@.len() > 0 ==> r@[0].0 == 0 && r@[r@.len() - 1].1 == start,
            r@.len() > 0 ==> (r@[r@.len() - 1].1 - r@[r@.len() - 1].0 == batch_size || start
                == total),
            r@.len() > 0 ==> r@[r@.len() - 1].1 - r@[r@.len() - 1].0 <= batch_size,
            forall|i: int| 0 <= i < r@.len() ==> #[trigger] r@[i].0 < r@[i].1 <= total,
            forall|i: int| 0 <= i < r@.len() - 1 ==> #[trigger] r@[i].1 - r@[i].0 == batch_size,
            forall|i: int| 0 <= i < r@.len() - 1 ==> #[trigger] r@[i + 1].0 == r@[i].1,
        decreases total - start,
    {
        let end: usize = if total - start < batch_size {
            total
        } else {
            start + batch_size
        };
        r.push((start, end));
        start = end;
    }
    r
}

proof fn lemma_batch_starts(r: Seq<(usize, usize)>, total: int, batch_size: int, i: int)
    requires
        batch_size >= 1,
        is_batch_partition(r, total, batch_size),
        0 <= i < r.len(),
    ensures
        r[i].0 == i * batch_size,
    decreases i,
{
    if i == 0 {
        assert(r[0].0 == 0);
    } else {
        lemma_batch_starts(r, total, batch_size, i - 1);
        assert(r[(i - 1) + 1].0 == r[i - 1].1);
        assert(r[i - 1].1 - r[i - 1].0 == batch_size);
        assert((i - 1) * batch_size + batch_size == i * batch_size) by (nonlinear_arith);
    }
}

/// A batch partition is unique: batch `i` runs from `i * batch_size` to the
/// lesser of `(i + 1) * batch_size` and `total`, so `batch_bounds` is pinned
/// down completely by its contract.
pub proof fn lemma_batch_partition_exact(r: Seq<(usize, usize)>, total: int, batch_size: int)
    requires
        batch_size >= 1,
        is_batch_partition(r, total, batch_size),
    ensures
        forall|i: int| 0 <= i < r.len() ==> #[trigger] r[i].0 == i * batch_size,
        forall|i: int|
            0 <= i < r.len() ==> #[trigger] r[i].1 == if (i + 1) * batch_size <= total {
                (i + 1) * batch_size
            } else {
                total
            },
{
    assert forall|i: int| 0 <= i < r.len() implies #[trigger] r[i].0 == i * batch_size by {
        lemma_batch_starts(r, total, batch_size, i);
    }
    assert forall|i: int|
        0 <= i < r.len() implies #[trigger] r[i].1 == if (i + 1) * batch_size <= total {
        (i + 1) * batch_size
    } else {
        total
    } by {
        lemma_batch_starts(r, total, batch_size, i);
        assert(i * batch_size + batch_size == (i + 1) * batch_size) by (nonlinear_arith);
        if i < r.len() - 1 {
            assert(r[i].1 - r[i].0 == batch_size);
            assert(r[i].1 <= total);
        } else {
            assert(r[i].1 == total);
            assert(r[i].1 - r[i].0 <= batch_size);
        }
    }
}

/// Why two flat streams cannot be paired into examples.
#[derive(Clone, Copy, Debug, PartialEq, Eq, Structural)]
pub enum DataError {
    /// An input or target row length of zero was given.
    ZeroRowLength,
    /// A stream is not a whole number of rows, or the two streams disagree on
    /// the number of examples.
    LengthMismatch,
}

/// Example `k` of the paired set: input row `k` beside target row `k`.
pub open spec fn example_rows_match(
    r: Seq<(Vec<u64>, Vec<u64>)>,
    inputs: Seq<u64>,
    targets: Seq<u64>,
    input_len: int,
    target_len: int,
) -> bool {
    &&& forall|k: int|
        0 <= k < r.len() ==> (#[trigger] r[k]).0@ == inputs.subrange(
            k * input_len,
            (k + 1) * input_len,
        )
    &&& forall|k: int|
        0 <= k < r.len() ==> (#[trigger] r[k]).1@ == targets.subrange(
            k * target_len,
            (k + 1) * target_len,
        )
}

/// Pairs a flat stream of input rows with a flat stream of one-hot target
/// rows, row by row: example `k` holds input row `k` and target row `k`.
/// Rejects zero row lengths, ragged streams, and streams that disagree on the
/// number of examples.
pub fn pair_examples(
    inputs: &Vec<u64>,
    targets: &Vec<u64>,
    input_len: usize,
    target_len: usize,
) -> (r: Result<Vec<(Vec<u64>, Vec<u64>)>, DataError>)
    ensures
        r is Ok <==> (input_len >= 1 && target_len >= 1 && inputs@.len() as int % (
        input_len as int) == 0 && targets@.len() as int % (target_len as int) == 0
            && inputs@.len() as int / (input_len as int) == targets@.len() as int / (
        target_len as int)),
        input_len == 0 || target_len == 0 ==> r == Err::<Vec<(Vec<u64>, Vec<u64>)>, DataError>(
            DataError::ZeroRowLength,
        ),
        r is Err && input_len >= 1 && target_len >= 1 ==> r == Err::<
            Vec<(Vec<u64>, Vec<u64>)>,
            DataError,
        >(DataError::LengthMismatch),
        r is Ok ==> r->Ok_0@.len() as int == inputs@.len() as int / (input_len as int),
        r is Ok ==> example_rows_match(
            r->Ok_0@,
            inputs@,
            targets@,
            input_len as int,
            target_len as int,
        ),
{
    if input_len == 0 || target_len == 0 {
        return Err(DataError::ZeroRowLength);
    }
    if inputs.len() % input_len != 0 || targets.len() % target_len != 0 {
        return Err(DataError::LengthMismatch);
    }
    let count = inputs.len() / input_len;
    if targets.len() / target_len != count {
        return Err(DataError::LengthMismatch);
    }
    proof {
        vstd::arithmetic::div_mod::lemma_fundamental_div_mod(
            inputs@.len() as int,
            input_len as int,
        );
        vstd::arithmetic::div_mod::lemma_fundamental_div_mod(
            targets@.len() as int,
            target_len as int,
        );
        vstd::arithmetic::mul::lemma_mul_is_commutative(input_len as int, count as int);
        vstd::arithmetic::mul::lemma_mul_is_commutative(target_len as int, count as int);
        assert(count * input_len == inputs@.len());
        assert(count * target_len == targets@.len());
    }
    let ilen = inputs.len();
    let tlen = targets.len();
    let mut r: Vec<(Vec<u64>, Vec<u64>)> = Vec::new();
    let mut k: usize = 0;
    let mut ibase: usize = 0;
    let mut tbase: usize = 0;
    while k < count
        invariant
            k <= count,
            input_len >= 1,
            target_len >= 1,
            ilen == inputs@.len(),
            tlen == targets@.len(),
            ibase == k * input_len,
            tbase == k * target_len,
            count * input_len == ilen,
            count * target_len == tlen,
            r@.len() == k,
            example_rows_match(r@, inputs@, targets@, input_len as int, target_len as int),
        decreases count - k,
    {
        proof {
            assert((k + 1) * input_len <= count * input_len && (k + 1) * target_len <= count
                * target_len && (k + 1) * input_len == k * input_len + input_len && (k + 1)
                * target_len == k * target_len + target_len) by (nonlinear_arith)
                requires
                    k < count,
                    input_len >= 1,
                    target_len >= 1,
            ;
        }
        let mut input_row: Vec<u64> = Vec::new();
        let mut j: usize = 0;
        while j < input_len
            invariant
                j <= input_len,
                ilen == inputs@.len(),
                ibase + input_len <= ilen,
                input_row@ == inputs@.subrange(ibase as int, ibase + j),
            decreases input_len - j,
        {
            input_row.push(inputs[ibase + j]);
            proof {
                assert(input_row@ =~= inputs@.subrange(ibase as int, ibase + j + 1));
            }
            j = j + 1;
        }
        let mut target_row: Vec<u64> = Vec::new();
        let mut j: usize = 0;
        while j < target_len
            invariant
                j <= target_len,
                tlen == targets@.len(),
                tbase + target_len <= tlen,
                target_row@ == targets@.subrange(tbase as int, tbase + j),
            decreases target_len - j,
        {
            target_row.push(targets[tbase + j]);
            proof {
                assert(target_row@ =~= targets@.subrange(tbase as int, tbase + j + 1));
            }
            j = j + 1;
        }
        r.push((input_row, target_row));
        k = k + 1;
        ibase = ibase + input_len;
        tbase = tbase + target_len;
    }
    Ok(r)
}

} // verus!
