use coral::folding::{circuit_reservation, num_rounds, primary_z0, z0_offset, ProverStep, RoundSchedule};

#[test]
fn rounds_round_up() {
    assert_eq!(num_rounds(10, 3), 4);
    assert_eq!(num_rounds(9, 3), 3);
    assert_eq!(num_rounds(0, 7), 0);
    assert_eq!(num_rounds(1, 100), 1);
}

#[test]
fn rounds_cut_counts_to_32_bits() {
    // 2^32 + 5 nodes are counted as 5.
    assert_eq!(num_rounds((1usize << 32) + 5, 2), 3);
    // A batch size of 2^32 + 4 is taken as 4.
    assert_eq!(num_rounds(9, (1usize << 32) + 4), 3);
    assert_eq!(num_rounds(u32::MAX as usize, 1), u32::MAX as usize);
}

#[test]
fn z0_offset_sums_key_lengths() {
    assert_eq!(z0_offset(&vec![]), 0);
    assert_eq!(z0_offset(&vec![3, 4, 5]), 12);
}

#[test]
fn primary_z0_drops_committed_prefix() {
    let full = vec![1u32, 2, 3, 4, 5, 6];
    assert_eq!(primary_z0(&full, &vec![2, 1]), vec![4, 5, 6]);
    assert_eq!(primary_z0(&full, &vec![]), full);
    assert_eq!(primary_z0(&full, &vec![6]), Vec::<u32>::new());
}

fn run(n: usize) -> Vec<ProverStep> {
    let mut s = RoundSchedule::new(n);
    let mut steps = Vec::new();
    while let Some(step) = s.next_step() {
        steps.push(step);
        s.advance();
    }
    steps
}

#[test]
fn schedule_of_three_rounds() {
    assert_eq!(
        run(3),
        vec![ProverStep::Synthesize(0), ProverStep::Fold(0), ProverStep::Synthesize(1), ProverStep::Fold(1), ProverStep::Synthesize(2), ProverStep::Fold(2), ProverStep::Compress]
    );
}

#[test]
fn schedule_of_one_round() {
    assert_eq!(run(1), vec![ProverStep::Synthesize(0), ProverStep::Fold(0), ProverStep::Compress]);
}

#[test]
fn schedule_of_no_round() {
    assert_eq!(run(0), vec![ProverStep::Synthesize(0), ProverStep::Compress]);
}

#[test]
fn reservation_only_after_first_round() {
    assert_eq!(circuit_reservation(0, 100), None);
    assert_eq!(circuit_reservation(1, 100), Some(200));
    assert_eq!(circuit_reservation(7, 0), Some(0));
}
