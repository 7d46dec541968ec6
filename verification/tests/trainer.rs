use feedforward::{one_hot, BatchTrainer, EpochPlan, Network};
use rand::rngs::StdRng;
use rand::SeedableRng;

#[test]
fn sgd_test_create_mnist_network_size() {
    let trainer = BatchTrainer::new();
    let network = trainer.network();
    assert_eq!(network.transitions(), 2);
    assert_eq!(network.weight_shape(0).0, 30);
    assert_eq!(network.weight_shape(0).1, 784);
    assert_eq!(network.weight_shape(1).0, 10);
    assert_eq!(network.weight_shape(1).1, 30);
    assert_eq!(network.bias_shape(0), 30);
    assert_eq!(network.bias_shape(1), 10);
}

#[test]
fn remainder_of_an_epoch_is_dropped() {
    let mut rng = StdRng::seed_from_u64(7);
    let plan = EpochPlan::shuffled(23, 10, &mut rng);
    assert_eq!(plan.len(), 23);
    assert_eq!(plan.batch_size(), 10);
    assert_eq!(plan.batches(), 2);
    assert_eq!(plan.used(), 20);
    assert_eq!(plan.dropped(), 3);
    assert_eq!(plan.batch(0).len(), 10);
    assert_eq!(plan.batch(1).len(), 10);
}

#[test]
fn shuffled_plan_uses_each_index_at_most_once() {
    let mut rng = StdRng::seed_from_u64(2024);
    let plan = EpochPlan::shuffled(23, 10, &mut rng);
    let mut seen = vec![false; 23];
    for b in 0..plan.batches() {
        for id in plan.batch(b) {
            assert!(id < 23);
            assert!(!seen[id as usize]);
            seen[id as usize] = true;
        }
    }
    assert_eq!(seen.iter().filter(|s| **s).count(), 20);
}

#[test]
fn shuffle_rearranges() {
    let mut rng = StdRng::seed_from_u64(1);
    let plan = EpochPlan::shuffled(1000, 1000, &mut rng);
    let order = plan.batch(0);
    let rising: Vec<u32> = (0..1000).collect();
    assert_ne!(order, rising);
    let mut sorted = order.clone();
    sorted.sort();
    assert_eq!(sorted, rising);
}

#[test]
fn same_seed_gives_same_plan() {
    let mut a = StdRng::seed_from_u64(99);
    let mut b = StdRng::seed_from_u64(99);
    let first = EpochPlan::shuffled(50, 5, &mut a);
    let second = EpochPlan::shuffled(50, 5, &mut b);
    for i in 0..10 {
        assert_eq!(first.batch(i), second.batch(i));
    }
}

#[test]
fn each_epoch_draws_a_fresh_permutation() {
    let mut rng = StdRng::seed_from_u64(5);
    let first = EpochPlan::shuffled(500, 500, &mut rng);
    let second = EpochPlan::shuffled(500, 500, &mut rng);
    assert_ne!(first.batch(0), second.batch(0));
}

#[test]
fn given_order_is_cut_in_sequence() {
    let plan = EpochPlan::new(vec![4, 2, 6, 0, 5, 1, 3], 3).unwrap();
    assert_eq!(plan.len(), 7);
    assert_eq!(plan.batches(), 2);
    assert_eq!(plan.batch(0), vec![4, 2, 6]);
    assert_eq!(plan.batch(1), vec![0, 5, 1]);
    assert_eq!(plan.used(), 6);
    assert_eq!(plan.dropped(), 1);
}

#[test]
fn exact_multiple_drops_nothing() {
    let plan = EpochPlan::new(vec![0, 1, 2, 3, 4, 5], 2).unwrap();
    assert_eq!(plan.batches(), 3);
    assert_eq!(plan.used(), 6);
    assert_eq!(plan.dropped(), 0);
    assert_eq!(plan.batch(2), vec![4, 5]);
}

#[test]
fn batch_larger_than_the_set_gives_no_batch() {
    let plan = EpochPlan::new(vec![1, 0, 2], 4).unwrap();
    assert_eq!(plan.batches(), 0);
    assert_eq!(plan.used(), 0);
    assert_eq!(plan.dropped(), 3);
}

#[test]
fn empty_training_set_gives_no_batch() {
    let mut rng = StdRng::seed_from_u64(3);
    let plan = EpochPlan::shuffled(0, 10, &mut rng);
    assert_eq!(plan.len(), 0);
    assert_eq!(plan.batches(), 0);
    assert_eq!(plan.dropped(), 0);
    assert!(EpochPlan::new(vec![], 1).is_some());
}

#[test]
fn order_that_is_no_permutation_is_refused() {
    assert!(EpochPlan::new(vec![0, 1, 1], 1).is_none());
    assert!(EpochPlan::new(vec![0, 1, 3], 1).is_none());
    assert!(EpochPlan::new(vec![1], 1).is_none());
    assert!(EpochPlan::new(vec![0, 1, 2], 0).is_none());
    assert!(EpochPlan::new(vec![2, 0, 1], 1).is_some());
}

#[test]
fn one_hot_marks_the_label() {
    assert_eq!(one_hot(3, 10), vec![0, 0, 0, 1, 0, 0, 0, 0, 0, 0]);
    assert_eq!(one_hot(0, 4), vec![1, 0, 0, 0]);
    assert_eq!(one_hot(9, 10), vec![0, 0, 0, 0, 0, 0, 0, 0, 0, 1]);
}

#[test]
fn one_hot_of_a_label_out_of_range_is_all_zero() {
    assert_eq!(one_hot(10, 10), vec![0; 10]);
    assert_eq!(one_hot(0, 0), Vec::<u8>::new());
}

fn small_set() -> feedforward::Dataset {
    // five training images of 2 by 2 pixels, labels out of ten classes
    let trn_img: Vec<u8> = (0..20).collect();
    feedforward::Dataset::new(trn_img, vec![3, 1, 4, 1, 5], vec![], vec![], 2, 2).unwrap()
}

#[test]
fn trainer_plans_over_the_whole_training_set() {
    let trainer = BatchTrainer::new();
    let set = small_set();
    let mut rng = StdRng::seed_from_u64(11);
    let plan = trainer.plan(&set, 2, &mut rng);
    assert_eq!(plan.len(), 5);
    assert_eq!(plan.batch_size(), 2);
    assert_eq!(plan.batches(), 2);
    assert_eq!(plan.dropped(), 1);
}

#[test]
fn batch_examples_carry_pixels_and_targets() {
    let trainer = BatchTrainer::new();
    let set = small_set();
    let plan = EpochPlan::new(vec![4, 0, 2, 3, 1], 2).unwrap();
    let first = trainer.examples(&set, &plan, 0);
    assert_eq!(first.len(), 2);
    assert_eq!(first[0].id, 4);
    assert_eq!(first[0].pixels, vec![16, 17, 18, 19]);
    assert_eq!(first[0].target, vec![0, 0, 0, 0, 0, 1, 0, 0, 0, 0]);
    assert_eq!(first[1].id, 0);
    assert_eq!(first[1].pixels, vec![0, 1, 2, 3]);
    assert_eq!(first[1].target, vec![0, 0, 0, 1, 0, 0, 0, 0, 0, 0]);
    let second = trainer.examples(&set, &plan, 1);
    assert_eq!(second[0].id, 2);
    assert_eq!(second[0].pixels, vec![8, 9, 10, 11]);
    assert_eq!(second[0].target, vec![0, 0, 0, 0, 1, 0, 0, 0, 0, 0]);
    assert_eq!(second[1].id, 3);
    assert_eq!(second[1].target, vec![0, 1, 0, 0, 0, 0, 0, 0, 0, 0]);
}

#[test]
fn trainer_accepts_only_images_of_input_size() {
    let trainer = BatchTrainer::new();
    assert!(!trainer.accepts(&small_set()));
    let mnist_like =
        feedforward::Dataset::new(vec![0; 784], vec![0], vec![], vec![], 28, 28).unwrap();
    assert!(trainer.accepts(&mnist_like));
}

#[test]
fn trainer_of_another_network_sizes_targets_by_its_output() {
    let trainer = BatchTrainer::with_network(Network::new(&vec![4, 3, 6]).unwrap());
    assert_eq!(trainer.network().depth(), 3);
    let set = small_set();
    assert!(trainer.accepts(&set));
    let plan = EpochPlan::new(vec![1, 2, 0, 4, 3], 5).unwrap();
    let batch = trainer.examples(&set, &plan, 0);
    assert_eq!(batch.len(), 5);
    assert_eq!(batch[0].target, vec![0, 1, 0, 0, 0, 0]);
    assert_eq!(batch[1].target, vec![0, 0, 0, 0, 1, 0]);
    assert_eq!(batch[2].target, vec![0, 0, 0, 1, 0, 0]);
    assert_eq!(batch[3].target, vec![0, 0, 0, 0, 0, 1]);
    assert_eq!(batch[3].pixels, vec![16, 17, 18, 19]);
}
