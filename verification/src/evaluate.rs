use vstd::prelude::*;

verus! {

/// The scalar word for one: the value a one-hot target row marks the correct
/// class with.
pub const ONE_WORD: u64 = 0x3FF0000000000000;

/// Running maximum of the first `n` words of `v` and its first index,
/// starting from a maximum of zero, exactly as the evaluation loop walks the
/// prediction row.  For the sign-clear, non-NaN words that the terminal
/// activations here produce, the unsigned order of the words is the numeric
/// order of the scalars they encode, so this is the predicted class.
pub open spec fn arg_max_rec(v: Seq<u64>, n: int) -> (int, u64)
    decreases n,
{
    if n <= 0 {
        (0, 0u64)
    } else {
        let prev = arg_max_rec(v, n - 1);
        if v[n - 1] > prev.1 {
            (n - 1, v[n - 1])
        } else {
            prev
        }
    }
}

/// The index of the first maximum of `v` (0 for an empty or all-zero row).
pub open spec fn arg_max_spec(v: Seq<u64>) -> int {
    arg_max_rec(v, v.len() as int).0
}

/// The index of the first maximum of the row, walking left to right from a
/// running maximum of zero.
pub fn arg_max(v: &Vec<u64>) -> (r: usize)
    ensures
        r as int == arg_max_spec(v@),
        v@.len() == 0 ==> r == 0,
        v@.len() > 0 ==> r < v@.len(),
        forall|j: int| 0 <= j < v@.len() ==> #[trigger] v@[j] <= v@[r as int],
        forall|j: int| 0 <= j < r ==> #[trigger] v@[j] < v@[r as int],
{
    let mut max: u64 = 0;
    let mut index: usize = 0;
    let mut i: usize = 0;
    while i < v.len()
        invariant
            i <= v@.len(),
            (index as int, max) == arg_max_rec(v@, i as int),
            index == 0 || index < i,
            max == 0 ==> index == 0,
            max != 0 ==> index < i && v@[index as int] == max,
            forall|j: int| 0 <= j < i ==> #[trigger] v@[j] <= max,
            forall|j: int| 0 <= j < index ==> #[trigger] v@[j] < max,
        decreases v@.len() - i,
    {
        if v[i] > max {
            max = v[i];
            index = i;
        }
        i = i + 1;
    }
    index
}

/// An example counts as correctly classified when its one-hot target row
/// marks the predicted class — the first maximum of the prediction row —
/// with the word for one.
pub open spec fn is_hit(out: Seq<u64>, tgt: Seq<u64>) -> bool {
    tgt[arg_max_spec(out)] == ONE_WORD
}

/// The number of correctly classified examples among the first `n`.
pub open spec fn count_correct_rec(outs: Seq<Vec<u64>>, tgts: Seq<Vec<u64>>, n: int) -> int
    decreases n,
{
    if n <= 0 {
        0
    } else {
        count_correct_rec(outs, tgts, n - 1) + if is_hit(outs[n - 1]@, tgts[n - 1]@) {
            1int
        } else {
            0int
        }
    }
}

/// Counts the correctly classified examples: for each prediction row, the
/// predicted class is the first maximum of the row, and the example counts
/// when the one-hot target marks that class with one.  The caller reports
/// `c` out of `outputs.len()`.
pub fn count_correct(outputs: &Vec<Vec<u64>>, targets: &Vec<Vec<u64>>) -> (c: usize)
    requires
        outputs@.len() == targets@.len(),
        forall|k: int| 0 <= k < outputs@.len() ==> (#[trigger] outputs@[k])@.len() >= 1,
        forall|k: int|
            0 <= k < outputs@.len() ==> (#[trigger] targets@[k])@.len() == outputs@[k]@.len(),
    ensures
        c as int == count_correct_rec(outputs@, targets@, outputs@.len() as int),
        c <= outputs@.len(),
{
    let mut c: usize = 0;
    let mut k: usize = 0;
    while k < outputs.len()
        invariant
            k <= outputs@.len(),
            outputs@.len() == targets@.len(),
            forall|j: int| 0 <= j < outputs@.len() ==> (#[trigger] outputs@[j])@.len() >= 1,
            forall|j: int|
                0 <= j < outputs@.len() ==> (#[trigger] targets@[j])@.len() == outputs@[j]@.len(),
            c as int == count_correct_rec(outputs@, targets@, k as int),
            c <= k,
        decreases outputs@.len() - k,
    {
        let prediction = &outputs[k];
        let target = &targets[k];
        let index = arg_max(prediction);
        if target[index] == ONE_WORD {
            c = c + 1;
        }
        k = k + 1;
    }
    c
}

} // verus!
