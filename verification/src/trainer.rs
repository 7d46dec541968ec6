//! Mini-batch scheduling for stochastic gradient descent: which training
//! examples make up which batch of an epoch, and what target each one is
//! trained towards.

use vstd::prelude::*;
use rand::rngs::StdRng;
use rand::seq::SliceRandom;
use crate::dataset::Dataset;
use crate::network::Network;

verus! {

#[verifier::external_type_specification]
#[verifier::external_body]
pub struct ExStdRng(rand::rngs::StdRng);

/// `SliceRandom::shuffle` on the vector's slice: a Fisher-Yates shuffle that
/// only ever swaps two entries, so whatever the generator yields, the entries
/// afterwards are the entries before, rearranged.
#[verifier::external_body]
pub(crate) fn shuffle(order: &mut Vec<u32>, rng: &mut StdRng)
    ensures
        final(order)@.to_multiset() == old(order)@.to_multiset(),
{
    order.shuffle(rng);
}

/// The indices `0, 1, .., n - 1` in rising order.
pub open spec fn identity(n: nat) -> Seq<u32> {
    Seq::new(n, |i: int| i as u32)
}

/// Whether `order` lists each index below its length exactly once.
pub open spec fn is_permutation(order: Seq<u32>) -> bool {
    &&& order.no_duplicates()
    &&& forall|i: int| 0 <= i < order.len() ==> (#[trigger] order[i]) < order.len()
}

/// A rearrangement of the rising indices is a permutation.
pub proof fn lemma_rearranged_identity(order: Seq<u32>, n: nat)
    requires
        n <= u32::MAX,
        order.to_multiset() == identity(n).to_multiset(),
    ensures
        order.len() == n,
        is_permutation(order),
{
    broadcast use vstd::seq_lib::group_to_multiset_ensures;

    let rising = identity(n);
    vstd::seq_lib::to_multiset_len(order);
    vstd::seq_lib::to_multiset_len(rising);
    assert(rising.no_duplicates());
    rising.lemma_multiset_has_no_duplicates();
    order.lemma_multiset_has_no_duplicates_conv();
    assert forall|i: int| 0 <= i < order.len() implies (#[trigger] order[i]) < order.len() by {
        assert(order.contains(order[i]));
        assert(rising.to_multiset().count(order[i]) > 0);
        assert(rising.contains(order[i]));
    }
}

/// One epoch's walk through the training set: a permutation of the training
/// indices, cut into consecutive batches of `batch_size`. Indices that do not
/// fill a last batch are left out of the epoch.
pub struct EpochPlan {
    order: Vec<u32>,
    batch_size: u32,
}

impl EpochPlan {
    #[verifier::type_invariant]
    spec fn inv(self) -> bool {
        &&& self.batch_size > 0
        &&& self.order@.len() <= u32::MAX
        &&& is_permutation(self.order@)
    }

    /// The training indices in the order of this epoch.
    pub closed spec fn order(&self) -> Seq<u32> {
        self.order@
    }

    /// Number of examples per batch.
    pub closed spec fn spec_batch_size(&self) -> nat {
        self.batch_size as nat
    }

    /// What holds of every plan.
    pub open spec fn wf(&self) -> bool {
        &&& self.spec_batch_size() > 0
        &&& self.order().len() <= u32::MAX
        &&& is_permutation(self.order())
    }

    /// Number of full batches.
    pub open spec fn spec_batches(&self) -> nat {
        self.order().len() / self.spec_batch_size()
    }

    /// The training indices of batch `b`.
    pub open spec fn spec_batch(&self, b: int) -> Seq<u32> {
        self.order().subrange(b * self.spec_batch_size(), (b + 1) * self.spec_batch_size())
    }

    /// Cuts a given order into batches. `None` unless `order` is a permutation
    /// of at most `u32::MAX` indices and `batch_size` is positive.
    pub fn new(order: Vec<u32>, batch_size: u32) -> (plan: Option<EpochPlan>)
        ensures
            plan.is_some() <==> batch_size > 0 && order@.len() <= u32::MAX && is_permutation(
                order@,
            ),
            plan matches Some(p) ==> p.wf() && p.order() == order@ && p.spec_batch_size()
                == batch_size,
    {
        if batch_size == 0 || order.len() > u32::MAX as usize || !check_permutation(&order) {
            return None;
        }
        Some(EpochPlan { order, batch_size })
    }

    /// Draws a fresh permutation of the indices below `trn_size` and cuts it
    /// into batches.
    pub fn shuffled(trn_size: u32, batch_size: u32, rng: &mut StdRng) -> (plan: EpochPlan)
        requires
            batch_size > 0,
        ensures
            plan.wf(),
            plan.order().len() == trn_size,
            plan.spec_batch_size() == batch_size,
    {
        let mut order: Vec<u32> = Vec::new();
        let mut i: u32 = 0;
        while i < trn_size
            invariant
                i <= trn_size,
                order@ =~= identity(i as nat),
            decreases trn_size - i,
        {
            order.push(i);
            i += 1;
        }
        shuffle(&mut order, rng);
        proof {
            lemma_rearranged_identity(order@, trn_size as nat);
        }
        EpochPlan { order, batch_size }
    }

    /// Number of examples per batch.
    pub fn batch_size(&self) -> (n: u32)
        ensures
            self.wf(),
            n == self.spec_batch_size(),
    {
        proof {
            use_type_invariant(self);
        }
        self.batch_size
    }

    /// Number of training indices, used or not.
    pub fn len(&self) -> (n: u32)
        ensures
            self.wf(),
            n == self.order().len(),
    {
        proof {
            use_type_invariant(self);
        }
        self.order.len() as u32
    }

    /// Number of full batches: the training-set size divided by the batch
    /// size, rounded down.
    pub fn batches(&self) -> (n: u32)
        ensures
            self.wf(),
            n == self.spec_batches(),
    {
        proof {
            use_type_invariant(self);
        }
        self.order.len() as u32 / self.batch_size
    }

    /// Number of examples that the epoch trains on.
    pub fn used(&self) -> (n: u32)
        ensures
            self.wf(),
            n == self.spec_batches() * self.spec_batch_size(),
            n <= self.order().len(),
    {
        proof {
            use_type_invariant(self);
            lemma_full_batches(self.order@.len(), self.batch_size as nat);
        }
        let len = self.order.len() as u32;
        len - len % self.batch_size
    }

    /// Number of examples left out at the end of the epoch: fewer than one
    /// batch.
    pub fn dropped(&self) -> (n: u32)
        ensures
            self.wf(),
            n == self.order().len() - self.spec_batches() * self.spec_batch_size(),
            n < self.spec_batch_size(),
    {
        proof {
            use_type_invariant(self);
            lemma_full_batches(self.order@.len(), self.batch_size as nat);
        }
        self.order.len() as u32 % self.batch_size
    }

    /// The training indices of batch `b`, in the order in which they are
    /// trained on.
    pub fn batch(&self, b: u32) -> (ids: Vec<u32>)
        requires
            b < self.spec_batches(),
        ensures
            self.wf(),
            ids@ == self.spec_batch(b as int),
            ids@.len() == self.spec_batch_size(),
            forall|j: int| 0 <= j < ids@.len() ==> (#[trigger] ids@[j]) < self.order().len(),
    {
        proof {
            use_type_invariant(self);
            lemma_batch_bounds(self.order@.len(), self.batch_size as nat, b as int);
        }
        let begin = b as usize * self.batch_size as usize;
        let mut ids: Vec<u32> = Vec::new();
        let mut j: usize = 0;
        while j < self.batch_size as usize
            invariant
                j <= self.batch_size,
                begin == b * self.batch_size,
                begin + self.batch_size <= self.order@.len() <= u32::MAX,
                ids@ =~= self.order@.subrange(begin as int, begin + j),
            decreases self.batch_size - j,
        {
            ids.push(self.order[begin + j]);
            j += 1;
        }
        ids
    }
}

/// The full batches and the remainder make up all `len` indices.
pub proof fn lemma_full_batches(len: nat, batch_size: nat)
    requires
        batch_size > 0,
    ensures
        (len / batch_size) * batch_size + len % batch_size == len,
        0 <= len % batch_size < batch_size,
{
    vstd::arithmetic::div_mod::lemma_fundamental_div_mod(len as int, batch_size as int);
    assert((len / batch_size) * batch_size == batch_size * (len / batch_size))
        by (nonlinear_arith);
}

/// Batch `b` of `len` indices lies within them.
pub proof fn lemma_batch_bounds(len: nat, batch_size: nat, b: int)
    requires
        batch_size > 0,
        0 <= b < len / batch_size,
    ensures
        0 <= b * batch_size,
        (b + 1) * batch_size == b * batch_size + batch_size,
        (b + 1) * batch_size <= len,
{
    let q = (len / batch_size) as int;
    lemma_full_batches(len, batch_size);
    assert(0 <= b * batch_size && (b + 1) * batch_size == b * batch_size + batch_size && (b + 1)
        * batch_size <= q * batch_size) by (nonlinear_arith)
        requires
            0 <= b < q,
            batch_size > 0,
    ;
}

/// A permutation leaves no index out: every index below its length occurs.
pub proof fn lemma_permutation_covers(order: Seq<u32>, v: u32)
    requires
        is_permutation(order),
        v < order.len(),
    ensures
        order.contains(v),
    decreases order.len(),
{
    let n = order.len() as int;
    if exists|k: int| 0 <= k < n && order[k] == n - 1 {
        let k = choose|k: int| 0 <= k < n && order[k] == n - 1;
        if v != n - 1 {
            let rest = order.remove(k);
            assert forall|i: int| 0 <= i < rest.len() implies (#[trigger] rest[i]) < rest.len() by {
                let at = if i < k {
                    i
                } else {
                    i + 1
                };
                assert(rest[i] == order[at]);
                assert(order[at] < n);
            }
            assert forall|i: int, j: int|
                0 <= i < rest.len() && 0 <= j < rest.len() && i != j implies rest[i]
                != rest[j] by {
                let at_i = if i < k {
                    i
                } else {
                    i + 1
                };
                let at_j = if j < k {
                    j
                } else {
                    j + 1
                };
                assert(rest[i] == order[at_i] && rest[j] == order[at_j]);
            }
            lemma_permutation_covers(rest, v);
            let i = choose|i: int| 0 <= i < rest.len() && rest[i] == v;
            let at = if i < k {
                i
            } else {
                i + 1
            };
            assert(order[at] == v);
        }
    } else {
        // No entry is `n - 1`, so the first `n - 1` entries are a permutation
        // among themselves and hold the last entry a second time.
        let rest = order.drop_last();
        assert forall|i: int| 0 <= i < rest.len() implies (#[trigger] rest[i]) < rest.len() by {
            assert(rest[i] == order[i]);
            assert(order[i] < n);
        }
        assert forall|i: int, j: int|
            0 <= i < rest.len() && 0 <= j < rest.len() && i != j implies rest[i] != rest[j] by {
            assert(rest[i] == order[i] && rest[j] == order[j]);
        }
        let last = order[n - 1];
        lemma_permutation_covers(rest, last);
        let i = choose|i: int| 0 <= i < rest.len() && rest[i] == last;
        assert(order[i] == order[n - 1]);
        assert(false);
    }
}

/// No training example is used twice in an epoch: two different places in the
/// batches of a plan hold different training indices, each one below the
/// training-set size.
pub proof fn lemma_example_used_once(plan: EpochPlan, b1: int, j1: int, b2: int, j2: int)
    requires
        plan.wf(),
        0 <= b1 < plan.spec_batches(),
        0 <= b2 < plan.spec_batches(),
        0 <= j1 < plan.spec_batch_size(),
        0 <= j2 < plan.spec_batch_size(),
        b1 != b2 || j1 != j2,
    ensures
        plan.spec_batch(b1)[j1] != plan.spec_batch(b2)[j2],
        plan.spec_batch(b1)[j1] < plan.order().len(),
{
    let size = plan.spec_batch_size();
    let len = plan.order().len();
    lemma_batch_bounds(len, size, b1);
    lemma_batch_bounds(len, size, b2);
    assert(b1 * size + j1 != b2 * size + j2) by (nonlinear_arith)
        requires
            0 <= j1 < size,
            0 <= j2 < size,
            b1 != b2 || j1 != j2,
    ;
    assert(plan.spec_batch(b1)[j1] == plan.order()[b1 * size + j1]);
    assert(plan.spec_batch(b2)[j2] == plan.order()[b2 * size + j2]);
}

/// Whether `order` lists each index below its length exactly once.
fn check_permutation(order: &Vec<u32>) -> (ok: bool)
    ensures
        ok == is_permutation(order@),
{
    let n = order.len();
    let mut seen: Vec<bool> = Vec::new();
    let mut k: usize = 0;
    while k < n
        invariant
            k <= n,
            seen@.len() == k,
            forall|v: int| 0 <= v < k ==> !seen@[v],
        decreases n - k,
    {
        seen.push(false);
        k += 1;
    }
    let mut i: usize = 0;
    while i < n
        invariant
            i <= n,
            n == order@.len(),
            seen@.len() == n,
            forall|v: int|
                0 <= v < n ==> (#[trigger] seen@[v] <==> exists|j: int|
                    0 <= j < i && order@[j] == v),
            forall|j: int| 0 <= j < i ==> (#[trigger] order@[j]) < n,
            forall|a: int, b: int| 0 <= a < b < i ==> order@[a] != order@[b],
        decreases n - i,
    {
        let v = order[i] as usize;
        if v >= n {
            return false;
        }
        if seen[v] {
            proof {
                let j = choose|j: int| 0 <= j < i && order@[j] == v;
                assert(order@[j] == order@[i as int]);
            }
            return false;
        }
        let ghost before = seen@;
        seen.set(v, true);
        proof {
            assert forall|w: int| 0 <= w < n implies (#[trigger] seen@[w] <==> exists|j: int|
                0 <= j < i + 1 && order@[j] == w) by {
                if w == v {
                    assert(order@[i as int] == w);
                } else {
                    assert(seen@[w] == before[w]);
                    if before[w] {
                        let j = choose|j: int| 0 <= j < i && order@[j] == w;
                        assert(0 <= j < i + 1 && order@[j] == w);
                    }
                }
            }
        }
        i += 1;
    }
    true
}

/// The target of an example of class `label` among `classes` classes: a one
/// at position `label`, zeros elsewhere. A label that names no class gives all
/// zeros.
pub open spec fn spec_one_hot(label: u8, classes: nat) -> Seq<u8> {
    Seq::new(
        classes,
        |i: int|
            if i == label {
                1u8
            } else {
                0u8
            },
    )
}

/// Builds the target of an example of class `label` among `classes` classes.
pub fn one_hot(label: u8, classes: usize) -> (target: Vec<u8>)
    ensures
        target@ == spec_one_hot(label, classes as nat),
{
    let mut target: Vec<u8> = Vec::new();
    let mut idx: usize = 0;
    while idx < classes
        invariant
            idx <= classes,
            target@.len() == idx,
            forall|i: int|
                0 <= i < idx ==> #[trigger] target@[i] == if i == label {
                    1u8
                } else {
                    0u8
                },
        decreases classes - idx,
    {
        if idx == label as usize {
            target.push(1);
        } else {
            target.push(0);
        }
        idx += 1;
    }
    assert(target@ =~= spec_one_hot(label, classes as nat));
    target
}

/// One training example as the numeric side takes it: its pixels, to be
/// scaled into the input vector, and its one-hot target.
pub struct Example {
    pub id: u32,
    pub pixels: Vec<u8>,
    pub target: Vec<u8>,
}

/// Trains the canonical digit classifier batch by batch.
pub struct BatchTrainer {
    network: Network,
}

impl BatchTrainer {
    /// The network that is trained.
    pub closed spec fn spec_network(&self) -> Network {
        self.network
    }

    /// A trainer for the canonical digit classifier.
    pub fn new() -> (trainer: Self)
        ensures
            trainer.spec_network().wf(),
            trainer.spec_network().sizes() == seq![784nat, 30nat, 10nat],
    {
        BatchTrainer { network: Network::new_mnist() }
    }

    /// A trainer for the given network.
    pub fn with_network(network: Network) -> (trainer: Self)
        ensures
            trainer.spec_network() == network,
    {
        BatchTrainer { network }
    }

    /// The network that is trained.
    pub fn network(&self) -> (network: &Network)
        ensures
            *network == self.spec_network(),
    {
        &self.network
    }

    /// Whether the images of `dataset` have the size of the network's input
    /// layer.
    pub fn accepts(&self, dataset: &Dataset) -> (ok: bool)
        ensures
            ok == (dataset.spec_pixels() == self.spec_network().sizes()[0]),
    {
        self.network.accepts_input(dataset.pixels())
    }

    /// Plans one epoch over the training part of `dataset`: a fresh
    /// permutation of all its indices, in batches of `batch_size`.
    pub fn plan(&self, dataset: &Dataset, batch_size: u32, rng: &mut StdRng) -> (plan: EpochPlan)
        requires
            batch_size > 0,
        ensures
            plan.wf(),
            plan.order().len() == dataset.trn_labels().len(),
            plan.spec_batch_size() == batch_size,
    {
        EpochPlan::shuffled(dataset.trn_size(), batch_size, rng)
    }

    /// The examples of batch `b` of an epoch, in the order in which their
    /// gradients are summed: for each training index of the batch its pixels
    /// and the one-hot target of its label, as long as the output layer.
    pub fn examples(&self, dataset: &Dataset, plan: &EpochPlan, b: u32) -> (batch: Vec<Example>)
        requires
            plan.order().len() == dataset.trn_labels().len(),
            b < plan.spec_batches(),
        ensures
            batch@.len() == plan.spec_batch_size(),
            forall|j: int|
                0 <= j < batch@.len() ==> {
                    let id = plan.spec_batch(b as int)[j];
                    &&& (#[trigger] batch@[j]).id == id
                    &&& id < dataset.trn_labels().len()
                    &&& batch@[j].pixels@ == dataset.image(dataset.trn_pixels(), id as int)
                    &&& batch@[j].target@ == spec_one_hot(
                        dataset.trn_labels()[id as int],
                        self.spec_network().sizes().last(),
                    )
                },
    {
        let ids = plan.batch(b);
        let depth = self.network.depth();
        let classes = self.network.layer_size(depth - 1);
        let mut batch: Vec<Example> = Vec::new();
        let mut j: usize = 0;
        while j < ids.len()
            invariant
                j <= ids@.len(),
                ids@ == plan.spec_batch(b as int),
                plan.order().len() == dataset.trn_labels().len(),
                forall|k: int| 0 <= k < ids@.len() ==> (#[trigger] ids@[k]) < plan.order().len(),
                classes as nat == self.spec_network().sizes().last(),
                batch@.len() == j,
                forall|k: int|
                    0 <= k < j ==> {
                        let id = ids@[k];
                        &&& (#[trigger] batch@[k]).id == id
                        &&& batch@[k].pixels@ == dataset.image(dataset.trn_pixels(), id as int)
                        &&& batch@[k].target@ == spec_one_hot(
                            dataset.trn_labels()[id as int],
                            classes as nat,
                        )
                    },
            decreases ids@.len() - j,
        {
            let id = ids[j];
            let pixels = dataset.trn_example(id);
            let target = one_hot(dataset.trn_label(id), classes);
            batch.push(Example { id, pixels, target });
            j += 1;
        }
        batch
    }
}

} // verus!
