//! Classification accuracy: how many examples the network places in their
//! true class.
//!
//! An output is a vector of scores, one per class. Scores are compared as
//! unsigned integers; a caller with other activations passes for each a number
//! that rises and falls with it.

use vstd::prelude::*;
use crate::dataset::Dataset;

verus! {

/// Whether `best` is the index of the largest score, the lowest such index
/// where the largest score occurs more than once.
pub open spec fn is_argmax(scores: Seq<u64>, best: int) -> bool {
    &&& 0 <= best < scores.len()
    &&& forall|j: int| 0 <= j < scores.len() ==> scores[j] <= scores[best]
    &&& forall|j: int| 0 <= j < best ==> scores[j] < scores[best]
}

/// `rulinalg::utils::argmax`, the scan behind `Vector::argmax`: index and
/// value of the first occurrence of the maximum. It takes the first entry as
/// the maximum so far and moves on only to a strictly greater one. It panics
/// on an empty slice.
#[verifier::external_body]
pub(crate) fn argmax(scores: &Vec<u64>) -> (best: (usize, u64))
    requires
        scores@.len() > 0,
    ensures
        is_argmax(scores@, best.0 as int),
        best.1 == scores@[best.0 as int],
{
    rulinalg::utils::argmax(scores)
}

/// An example as the evaluator sees it: the network's output for it, and its
/// true class.
pub type Sample = (Seq<u64>, u8);

/// Whether the network places the example in its true class.
pub open spec fn is_hit(sample: Sample) -> bool {
    is_argmax(sample.0, sample.1 as int)
}

/// Number of samples that are hits.
pub open spec fn hits(samples: Seq<Sample>) -> nat
    decreases samples.len(),
{
    if samples.len() == 0 {
        0
    } else {
        hits(samples.drop_last()) + if is_hit(samples.last()) {
            1nat
        } else {
            0nat
        }
    }
}

/// Outputs and labels, paired up example by example.
pub open spec fn samples(outputs: Seq<Vec<u64>>, labels: Seq<u8>) -> Seq<Sample> {
    Seq::new(outputs.len(), |i: int| (outputs[i]@, labels[i]))
}

/// At most one index is the argmax.
pub proof fn lemma_argmax_unique(scores: Seq<u64>, a: int, b: int)
    requires
        is_argmax(scores, a),
        is_argmax(scores, b),
    ensures
        a == b,
{
    if a < b {
        assert(scores[a] < scores[b]);
        assert(scores[b] <= scores[a]);
    } else if b < a {
        assert(scores[b] < scores[a]);
        assert(scores[a] <= scores[b]);
    }
}

/// Taking one sample out lowers the count by that sample's worth.
pub proof fn lemma_hits_remove(samples: Seq<Sample>, i: int)
    requires
        0 <= i < samples.len(),
    ensures
        hits(samples) == hits(samples.remove(i)) + if is_hit(samples[i]) {
            1nat
        } else {
            0nat
        },
    decreases samples.len(),
{
    if i == samples.len() - 1 {
        assert(samples.remove(i) =~= samples.drop_last());
    } else {
        let rest = samples.remove(i);
        assert(rest.drop_last() =~= samples.drop_last().remove(i));
        assert(rest.last() == samples.last());
        lemma_hits_remove(samples.drop_last(), i);
    }
}

/// Accuracy does not depend on the order of the test examples: two
/// arrangements of the same samples have the same number of hits and the same
/// total.
pub proof fn lemma_hits_order_invariant(a: Seq<Sample>, b: Seq<Sample>)
    requires
        a.to_multiset() == b.to_multiset(),
    ensures
        hits(a) == hits(b),
        a.len() == b.len(),
    decreases a.len(),
{
    vstd::seq_lib::to_multiset_len(a);
    vstd::seq_lib::to_multiset_len(b);
    if a.len() > 0 {
        let x = a.last();
        vstd::seq_lib::to_multiset_contains(a, x);
        vstd::seq_lib::to_multiset_contains(b, x);
        assert(a.contains(x));
        let i = b.index_of(x);
        vstd::seq_lib::to_multiset_remove(a, a.len() - 1);
        vstd::seq_lib::to_multiset_remove(b, i);
        assert(a.remove(a.len() - 1) =~= a.drop_last());
        lemma_hits_order_invariant(a.drop_last(), b.remove(i));
        lemma_hits_remove(b, i);
    }
}

/// Measures a network against the test part of a data set.
pub struct Evaluator {}

impl Evaluator {
    /// Counts the test examples whose highest score falls on their label.
    /// `outputs[i]` is the network's output for test example `i`.
    ///
    /// Returns the number of hits and the number of test examples.
    pub fn evaluate(dataset: &Dataset, outputs: &Vec<Vec<u64>>) -> (tally: (u32, u32))
        requires
            outputs@.len() == dataset.tst_labels().len(),
            forall|i: int| 0 <= i < outputs@.len() ==> (#[trigger] outputs@[i])@.len() > 0,
        ensures
            tally.0 == hits(samples(outputs@, dataset.tst_labels())),
            tally.1 == dataset.tst_labels().len(),
            tally.0 <= tally.1,
    {
        let total = dataset.tst_size();
        let ghost all = samples(outputs@, dataset.tst_labels());
        let mut cnt: u32 = 0;
        let mut i: u32 = 0;
        while i < total
            invariant
                i <= total,
                total == outputs@.len(),
                total == dataset.tst_labels().len(),
                all == samples(outputs@, dataset.tst_labels()),
                forall|k: int| 0 <= k < outputs@.len() ==> (#[trigger] outputs@[k])@.len() > 0,
                cnt == hits(all.take(i as int)),
                cnt <= i,
            decreases total - i,
        {
            let (idx, _) = argmax(&outputs[i as usize]);
            let label = dataset.tst_label(i);
            proof {
                let upto = all.take(i + 1);
                assert(upto.drop_last() =~= all.take(i as int));
                assert(upto.last() == (outputs@[i as int]@, label));
                if is_hit(upto.last()) {
                    lemma_argmax_unique(outputs@[i as int]@, idx as int, label as int);
                }
            }
            if idx == label as usize {
                cnt = cnt + 1;
            }
            i += 1;
        }
        assert(all.take(total as int) =~= all);
        (cnt, total)
    }

    /// The line that reports an epoch: `Epoch {epoch}: {correct}/{total}`,
    /// the numbers in decimal.
    pub fn report(epoch: u32, tally: (u32, u32)) -> (line: String)
        ensures
            line@ == spec_report(epoch as nat, tally.0 as nat, tally.1 as nat),
    {
        proof {
            reveal_strlit("Epoch ");
            reveal_strlit(": ");
            reveal_strlit("/");
        }
        let mut line = String::from_str("Epoch ");
        append_decimal(&mut line, epoch);
        line.append(": ");
        append_decimal(&mut line, tally.0);
        line.append("/");
        append_decimal(&mut line, tally.1);
        assert(line@ =~= spec_report(epoch as nat, tally.0 as nat, tally.1 as nat));
        line
    }
}

/// The character of a decimal digit.
pub open spec fn digit(d: int) -> char {
    if d == 0 {
        '0'
    } else if d == 1 {
        '1'
    } else if d == 2 {
        '2'
    } else if d == 3 {
        '3'
    } else if d == 4 {
        '4'
    } else if d == 5 {
        '5'
    } else if d == 6 {
        '6'
    } else if d == 7 {
        '7'
    } else if d == 8 {
        '8'
    } else {
        '9'
    }
}

/// A number in decimal, without leading zeros.
pub open spec fn decimal(n: nat) -> Seq<char>
    decreases n,
{
    if n < 10 {
        seq![digit(n as int)]
    } else {
        decimal(n / 10).push(digit((n % 10) as int))
    }
}

/// The report of an epoch, character by character.
pub open spec fn spec_report(epoch: nat, correct: nat, total: nat) -> Seq<char> {
    seq!['E', 'p', 'o', 'c', 'h', ' '] + decimal(epoch) + seq![':', ' '] + decimal(correct)
        + seq!['/'] + decimal(total)
}

fn digit_str(d: u32) -> (s: &'static str)
    requires
        d < 10,
    ensures
        s@ == seq![digit(d as int)],
{
    proof {
        reveal_strlit("0");
        reveal_strlit("1");
        reveal_strlit("2");
        reveal_strlit("3");
        reveal_strlit("4");
        reveal_strlit("5");
        reveal_strlit("6");
        reveal_strlit("7");
        reveal_strlit("8");
        reveal_strlit("9");
    }
    let s = match d {
        0 => "0",
        1 => "1",
        2 => "2",
        3 => "3",
        4 => "4",
        5 => "5",
        6 => "6",
        7 => "7",
        8 => "8",
        _ => "9",
    };
    assert(s@ =~= seq![digit(d as int)]);
    s
}

fn append_decimal(text: &mut String, n: u32)
    ensures
        final(text)@ == old(text)@ + decimal(n as nat),
    decreases n,
{
    if n >= 10 {
        append_decimal(text, n / 10);
    }
    text.append(digit_str(n % 10));
    assert(text@ =~= old(text)@ + decimal(n as nat));
}

} // verus!
