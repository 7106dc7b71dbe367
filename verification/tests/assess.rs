use qrng::assess::{
    assess_quality, ones_in, quick_randomness_test, transitions_in, BitStatistics, QuickTest,
    Verdict, FAIR_BIAS, FAIR_ENTROPY, GOOD_BIAS, GOOD_ENTROPY, INFINITY, MIN_TESTED_BITS, SIGN_BIT,
};

fn verdict(bias: f64, entropy: f64) -> Verdict {
    assess_quality(bias.to_bits(), entropy.to_bits())
}

fn expected(bias: f64, entropy: f64) -> Verdict {
    if bias < 0.05 && entropy > 0.95 {
        Verdict::Good
    } else if bias < 0.1 && entropy > 0.9 {
        Verdict::Fair
    } else {
        Verdict::Poor
    }
}

fn next_up(x: f64) -> f64 {
    f64::from_bits(x.to_bits() + 1)
}

fn next_down(x: f64) -> f64 {
    f64::from_bits(x.to_bits() - 1)
}

#[test]
fn fewer_than_a_hundred_bits_are_not_tested() {
    assert_eq!(MIN_TESTED_BITS, 100);
    assert_eq!(quick_randomness_test(&[]), QuickTest::InsufficientData);
    assert_eq!(quick_randomness_test(&[1, 0, 1]), QuickTest::InsufficientData);
    assert_eq!(quick_randomness_test(&[0; 99]), QuickTest::InsufficientData);
    assert_ne!(quick_randomness_test(&[0; 100]), QuickTest::InsufficientData);
}

#[test]
fn counts_a_constant_sequence() {
    assert_eq!(
        quick_randomness_test(&[0; 100]),
        QuickTest::Measured(BitStatistics {
            bit_count: 100,
            ones: 0,
            zeros: 100,
            transitions: 0,
            percent_ones: 0,
            percent_zeros: 100,
        })
    );
}

#[test]
fn counts_an_alternating_sequence() {
    let bits: Vec<u8> = (0..200).map(|k| (k % 2) as u8).collect();
    assert_eq!(
        quick_randomness_test(&bits),
        QuickTest::Measured(BitStatistics {
            bit_count: 200,
            ones: 100,
            zeros: 100,
            transitions: 199,
            percent_ones: 50,
            percent_zeros: 50,
        })
    );
}

#[test]
fn rounds_percentages_down() {
    let mut bits = vec![1u8; 37];
    bits.extend(vec![0u8; 113]);
    assert_eq!(
        quick_randomness_test(&bits),
        QuickTest::Measured(BitStatistics {
            bit_count: 150,
            ones: 37,
            zeros: 113,
            transitions: 1,
            percent_ones: 24,
            percent_zeros: 75,
        })
    );
}

#[test]
fn counts_ones_and_transitions_of_short_sequences() {
    assert_eq!(ones_in(&[]), 0);
    assert_eq!(transitions_in(&[]), 0);
    assert_eq!(transitions_in(&[1]), 0);
    assert_eq!(ones_in(&[0, 1, 1, 0, 1]), 3);
    assert_eq!(transitions_in(&[0, 1, 1, 0, 1]), 3);
    assert_eq!(ones_in(&[1, 2, 1, 0]), 2);
    assert_eq!(transitions_in(&[1, 2, 2, 0]), 2);
}

#[test]
fn the_limits_are_the_bit_patterns_of_the_doubles() {
    assert_eq!(GOOD_BIAS, 0.05f64.to_bits());
    assert_eq!(FAIR_BIAS, 0.1f64.to_bits());
    assert_eq!(GOOD_ENTROPY, 0.95f64.to_bits());
    assert_eq!(FAIR_ENTROPY, 0.9f64.to_bits());
    assert_eq!(INFINITY, f64::INFINITY.to_bits());
    assert_eq!(SIGN_BIT, (-0.0f64).to_bits());
}

#[test]
fn low_bias_and_high_entropy_are_good() {
    assert_eq!(verdict(0.0, 1.0), Verdict::Good);
    assert_eq!(verdict(0.04, 0.96), Verdict::Good);
    assert_eq!(verdict(next_down(0.05), next_up(0.95)), Verdict::Good);
}

#[test]
fn the_good_limits_themselves_are_only_fair() {
    assert_eq!(verdict(0.05, 1.0), Verdict::Fair);
    assert_eq!(verdict(0.0, 0.95), Verdict::Fair);
    assert_eq!(verdict(0.07, 0.93), Verdict::Fair);
    assert_eq!(verdict(next_down(0.1), next_up(0.9)), Verdict::Fair);
}

#[test]
fn the_fair_limits_themselves_are_poor() {
    assert_eq!(verdict(0.1, 1.0), Verdict::Poor);
    assert_eq!(verdict(0.0, 0.9), Verdict::Poor);
    assert_eq!(verdict(0.5, 0.0), Verdict::Poor);
    assert_eq!(verdict(0.04, 0.5), Verdict::Poor);
    assert_eq!(verdict(0.3, 0.99), Verdict::Poor);
}

#[test]
fn decides_as_the_comparison_of_doubles_does() {
    let values = [
        0.0,
        -0.0,
        f64::MIN_POSITIVE,
        5e-324,
        0.04,
        next_down(0.05),
        0.05,
        next_up(0.05),
        0.07,
        next_down(0.1),
        0.1,
        next_up(0.1),
        0.5,
        next_down(0.9),
        0.9,
        next_up(0.9),
        0.93,
        next_down(0.95),
        0.95,
        next_up(0.95),
        1.0,
        2.0,
        f64::MAX,
        f64::INFINITY,
        f64::NEG_INFINITY,
        -0.04,
        -1.0,
        f64::MIN,
        f64::NAN,
        -f64::NAN,
        f64::from_bits(0x7FF0_0000_0000_0001),
        f64::from_bits(0xFFFF_FFFF_FFFF_FFFF),
    ];
    for &bias in values.iter() {
        for &entropy in values.iter() {
            assert_eq!(verdict(bias, entropy), expected(bias, entropy), "{} {}", bias, entropy);
        }
    }
}

fn measure(ones: usize, total: usize) -> (f64, f64) {
    let share_of_ones = ones as f64 / total as f64;
    let share_of_zeros = (total - ones) as f64 / total as f64;
    let mut entropy = 0.0;
    if share_of_zeros > 0.0 {
        entropy -= share_of_zeros * share_of_zeros.log2();
    }
    if share_of_ones > 0.0 {
        entropy -= share_of_ones * share_of_ones.log2();
    }
    ((share_of_ones - 0.5).abs(), entropy)
}

#[test]
fn decides_on_what_was_measured_of_real_sequences() {
    let (bias, entropy) = measure(50, 100);
    assert_eq!(entropy, 1.0);
    assert_eq!(verdict(bias, entropy), Verdict::Good);
    let (bias, entropy) = measure(58, 100);
    assert_eq!(verdict(bias, entropy), Verdict::Fair);
    let (bias, entropy) = measure(70, 100);
    assert_eq!(verdict(bias, entropy), Verdict::Poor);
    let (bias, entropy) = measure(0, 100);
    assert_eq!(entropy, 0.0);
    assert_eq!(verdict(bias, entropy), Verdict::Poor);
    for ones in 0..=1000 {
        let (bias, entropy) = measure(ones, 1000);
        assert_eq!(verdict(bias, entropy), expected(bias, entropy));
    }
}

#[test]
fn names_its_verdicts() {
    assert_eq!(Verdict::Good.label(), "Good");
    assert_eq!(Verdict::Fair.label(), "Fair");
    assert_eq!(Verdict::Poor.label(), "Poor - Consider debiasing");
}

#[test]
fn the_crate_root_offers_the_quick_test() {
    assert_eq!(qrng::quick_randomness_test(&[1; 10]), QuickTest::InsufficientData);
}
