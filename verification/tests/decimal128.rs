use lance_support::decimal128::generate_decimal128_values;

const SEED: u64 = 0xDEAD_BEEF;

#[test]
fn widths_below_128_set_exactly_their_highest_bit() {
    for bw in [1u32, 2, 24, 32, 33, 40, 64, 65, 100, 126, 127] {
        let values = generate_decimal128_values(200, bw, SEED);
        assert_eq!(values.len(), 200);
        for v in values {
            assert!(v > 0);
            assert_eq!(128 - v.leading_zeros(), bw);
        }
    }
}

#[test]
fn width_128_gives_bounded_negatives() {
    for v in generate_decimal128_values(200, 128, SEED) {
        assert!(-(1i128 << 64) <= v && v <= -1);
    }
}

#[test]
fn values_are_reproducible() {
    assert_eq!(
        generate_decimal128_values(50, 40, SEED),
        generate_decimal128_values(50, 40, SEED)
    );
    assert_eq!(generate_decimal128_values(0, 40, SEED), Vec::<i128>::new());
}

#[test]
fn even_and_odd_seeds_share_a_sequence() {
    assert_eq!(
        generate_decimal128_values(5, 100, 6),
        generate_decimal128_values(5, 100, 7)
    );
}

#[test]
fn values_are_those_of_the_generator() {
    let first = |bw: u32| generate_decimal128_values(3, bw, SEED);
    assert_eq!(first(1), vec![1, 1, 1]);
    assert_eq!(first(24), vec![8830546, 16633569, 15028070]);
    assert_eq!(first(40), vec![720464428626, 814407864033, 978218995558]);
    assert_eq!(
        first(100),
        vec![
            884277742855357807128750767698,
            839814988606772350971870564065,
            717287859755911044467645566822
        ]
    );
    assert_eq!(
        first(127),
        vec![
            114947182827075777436412069568313736786,
            135442680649211258289477256016163622625,
            102637326212985912367054874553407065958
        ]
    );
    assert_eq!(
        first(128),
        vec![
            -4018790486776397395,
            -12314804274138566370,
            -4460958246129454951
        ]
    );
}
